//! Who pays for a model call, and which model it goes to: the account's own settings,
//! the provider that a device brings along for one request, and the built-in router.

use vstd::prelude::*;

use crate::ai::route::{
    chat_first, default_task_routes, is_default_table, AiTaskType, ApiProtocol, RouteTable,
    TaskRouteConfig, DEFAULT_ROUTE_VERSION,
};
use crate::server::errors::{api_error, invalid_argument, refused, ApiError};
use crate::text::{
    ascii_lowercase, is_blank, opt_view, str_eq, str_view, to_ascii_lower, trim, trimmed, views,
};

verus! {

/// Where an account takes its model calls from.
#[derive(Debug, Clone, Copy, PartialEq, Eq, Structural)]
pub enum AiMode {
    Builtin,
    Custom,
    Off,
}

/// A custom endpoint, as far as it was resolved.
#[derive(Debug)]
pub struct CustomBaseUrlResolution {
    pub base_url: String,
    pub host: String,
    pub port: u16,
}

/// The two endpoints are the same service: the same host, whatever its case, and port.
pub open spec fn same_service(a: CustomBaseUrlResolution, b: CustomBaseUrlResolution) -> bool {
    to_ascii_lower(a.host@) == to_ascii_lower(b.host@) && a.port == b.port
}

pub fn custom_ai_hosts_match(
    requested: &CustomBaseUrlResolution,
    saved: &CustomBaseUrlResolution,
) -> (r: bool)
    ensures
        r == same_service(*requested, *saved),
{
    let a = ascii_lowercase(requested.host.as_str());
    let b = ascii_lowercase(saved.host.as_str());
    str_eq(a.as_str(), b.as_str()) && requested.port == saved.port
}

// ---------------------------------------------------------------------------
// Whose model serves a request
// ---------------------------------------------------------------------------

#[derive(Debug, Clone, Copy, PartialEq, Eq, Structural)]
pub enum GatewayKind {
    Disabled,
    Builtin,
    Custom,
}

/// Under which account a call is admitted, and whether it costs of the daily quota.
#[derive(Debug)]
pub struct AiCallAdmission {
    pub user_id: String,
    pub charge_daily_quota: bool,
}

/// The provider that serves a request. A call without an admission is never made.
#[derive(Debug)]
pub struct ResolvedAiGateway {
    pub gateway: GatewayKind,
    pub has_custom_router: bool,
    pub use_builtin_router: bool,
    pub admission: Option<AiCallAdmission>,
}

impl ResolvedAiGateway {
    pub open spec fn is_disabled(self) -> bool {
        self.gateway is Disabled && !self.has_custom_router && !self.use_builtin_router
            && self.admission is None
    }

    /// The built-in provider, on the daily quota of this account.
    pub open spec fn is_builtin_for(self, user_id: Seq<char>) -> bool {
        &&& self.gateway is Builtin
        &&& !self.has_custom_router
        &&& self.use_builtin_router
        &&& self.admission is Some
        &&& self.admission->0.user_id@ == user_id
        &&& self.admission->0.charge_daily_quota
    }

    /// The provider that the device brought along, at the device's own cost.
    pub open spec fn is_custom_for(self, user_id: Seq<char>, multi_model: bool) -> bool {
        &&& self.gateway is Custom
        &&& self.has_custom_router == multi_model
        &&& !self.use_builtin_router
        &&& self.admission is Some
        &&& self.admission->0.user_id@ == user_id
        &&& !self.admission->0.charge_daily_quota
    }
}

pub fn disabled_resolved_ai() -> (r: ResolvedAiGateway)
    ensures
        r.is_disabled(),
{
    ResolvedAiGateway {
        gateway: GatewayKind::Disabled,
        has_custom_router: false,
        use_builtin_router: false,
        admission: None,
    }
}

/// The account's provider. `mode` is what the account has saved, when it could be read:
/// only an account that chose the built-in provider gets it. A custom provider has to
/// come with the request, so saved settings alone do not bring one.
pub fn account_ai_gateway(user_id: Option<&str>, mode: Option<AiMode>) -> (r: ResolvedAiGateway)
    ensures
        match (user_id, mode) {
            (Some(user), Some(AiMode::Builtin)) => r.is_builtin_for(user@),
            _ => r.is_disabled(),
        },
{
    match (user_id, mode) {
        (Some(user), Some(AiMode::Builtin)) => ResolvedAiGateway {
            gateway: GatewayKind::Builtin,
            has_custom_router: false,
            use_builtin_router: true,
            admission: Some(
                AiCallAdmission { user_id: user.to_owned(), charge_daily_quota: true },
            ),
        },
        _ => disabled_resolved_ai(),
    }
}

#[derive(Debug, Clone, Copy, PartialEq, Eq, Structural)]
pub enum RouterChoice {
    Absent,
    Custom,
    Builtin,
}

/// The router of a request: the custom one where there is one, else the built-in one,
/// and none when the chosen one has nothing to offer.
pub fn resolved_task_router(
    resolved: &ResolvedAiGateway,
    custom_available: bool,
    builtin_available: bool,
) -> (r: RouterChoice)
    ensures
        r is Custom <==> resolved.has_custom_router && custom_available,
        r is Builtin <==> !resolved.has_custom_router && resolved.use_builtin_router
            && builtin_available,
{
    if resolved.has_custom_router {
        if custom_available {
            RouterChoice::Custom
        } else {
            RouterChoice::Absent
        }
    } else if resolved.use_builtin_router && builtin_available {
        RouterChoice::Builtin
    } else {
        RouterChoice::Absent
    }
}

/// What the store says of the account's AI settings.
#[derive(Debug)]
pub struct SavedAiSettings {
    pub mode: AiMode,
    pub base_url: Option<String>,
}

/// How a request is served when it may bring a provider along.
#[derive(Debug)]
pub enum AiSource {
    /// With the provider of the request, which has to match the saved endpoint.
    Device { saved_base_url: String },
    /// With what the account has chosen.
    Account,
}

/// Decides between the provider that a request brings along and the account's own choice.
/// A device's credential never overrides a saved choice of the built-in provider, or of none.
pub fn custom_ai_source(
    brought: bool,
    user_id: Option<&str>,
    settings: Option<&SavedAiSettings>,
) -> (r: Result<AiSource, ApiError>)
    ensures
        !brought ==> r matches Ok(AiSource::Account),
        brought && user_id is None ==> (r matches Err(e) && e.is(
            401,
            "unauthenticated"@,
            "sign in to use a device-local custom AI provider"@,
        )),
        brought && user_id is Some ==> match settings {
            Some(saved) => if saved.mode is Custom {
                match saved.base_url {
                    Some(url) => r matches Ok(AiSource::Device { saved_base_url })
                        && saved_base_url@ == url@,
                    None => refused(r, "saved custom AI endpoint is missing"@),
                }
            } else {
                r matches Ok(AiSource::Account)
            },
            None => r matches Ok(AiSource::Account),
        },
{
    if !brought {
        return Ok(AiSource::Account);
    }
    if user_id.is_none() {
        return Err(
            api_error(
                401,
                "unauthenticated",
                "sign in to use a device-local custom AI provider",
            ),
        );
    }
    match settings {
        Some(saved) if saved.mode == AiMode::Custom => match &saved.base_url {
            Some(url) => Ok(AiSource::Device { saved_base_url: url.clone() }),
            None => Err(invalid_argument("saved custom AI endpoint is missing")),
        },
        _ => Ok(AiSource::Account),
    }
}

// ---------------------------------------------------------------------------
// A provider that comes with the request
// ---------------------------------------------------------------------------

/// The models that a device asks for one task.
#[derive(Debug)]
pub struct CustomRoute {
    pub task: String,
    pub primary_model: String,
    pub fallback_models: Vec<String>,
}

#[derive(Debug)]
pub struct TransientCustomAiRequest {
    pub provider: String,
    pub base_url: String,
    pub model: String,
    pub api_key: String,
    pub multi_model: Option<bool>,
    pub fallback_model: Option<String>,
    pub routes: Option<Vec<CustomRoute>>,
}

/// What is wrong with a provider that a request brings along, before its endpoint is
/// looked at.
pub open spec fn transient_fault(custom: TransientCustomAiRequest) -> Option<Seq<char>> {
    if custom.provider@ != "openai_compat"@ {
        Some("custom provider must be openai_compat"@)
    } else if trimmed(custom.model@).len() == 0 || trimmed(custom.api_key@).len() == 0 {
        Some("custom model and api_key are required"@)
    } else {
        None
    }
}

pub fn check_transient_custom_ai(custom: &TransientCustomAiRequest) -> (r: Result<(), ApiError>)
    ensures
        match transient_fault(*custom) {
            Some(message) => refused(r, message),
            None => r is Ok,
        },
{
    if !str_eq(custom.provider.as_str(), "openai_compat") {
        return Err(invalid_argument("custom provider must be openai_compat"));
    }
    if is_blank(custom.model.as_str()) || is_blank(custom.api_key.as_str()) {
        return Err(invalid_argument("custom model and api_key are required"));
    }
    Ok(())
}

/// What is wrong with the endpoint that a request brings along. The endpoints are `None`
/// where they could not be resolved to an allowed address.
pub open spec fn endpoint_fault(
    requested: Option<CustomBaseUrlResolution>,
    saved: Option<CustomBaseUrlResolution>,
) -> Option<Seq<char>> {
    match (requested, saved) {
        (None, _) => Some("custom AI endpoint is not allowed"@),
        (Some(_), None) => Some("saved custom AI endpoint is no longer valid"@),
        (Some(a), Some(b)) => if same_service(a, b) {
            None
        } else {
            Some("custom AI endpoint does not match saved account settings"@)
        },
    }
}

pub fn check_custom_endpoint(
    requested: &Option<CustomBaseUrlResolution>,
    saved: &Option<CustomBaseUrlResolution>,
) -> (r: Result<(), ApiError>)
    ensures
        match endpoint_fault(*requested, *saved) {
            Some(message) => refused(r, message),
            None => r is Ok,
        },
{
    let a = match requested {
        Some(a) => a,
        None => return Err(invalid_argument("custom AI endpoint is not allowed")),
    };
    let b = match saved {
        Some(b) => b,
        None => return Err(invalid_argument("saved custom AI endpoint is no longer valid")),
    };
    if !custom_ai_hosts_match(a, b) {
        return Err(invalid_argument("custom AI endpoint does not match saved account settings"));
    }
    Ok(())
}

/// The gateway of a request that brings its provider along, with its routes where it asks
/// for several models. `configured` tells whether a client for the endpoint could be made.
pub fn transient_custom_ai_resolved(
    custom: &TransientCustomAiRequest,
    requested: &Option<CustomBaseUrlResolution>,
    saved: &Option<CustomBaseUrlResolution>,
    configured: bool,
    user_id: &str,
) -> (r: Result<(ResolvedAiGateway, Option<RouteTable>), ApiError>)
    ensures
        match transient_fault(*custom) {
            Some(message) => refused(r, message),
            None => match endpoint_fault(*requested, *saved) {
                Some(message) => refused(r, message),
                None => if !configured {
                    refused(r, "custom AI configuration is invalid"@)
                } else {
                    let multi = custom.multi_model != Some(false);
                    &&& r is Ok
                    &&& r->Ok_0.0.is_custom_for(user_id@, multi)
                    &&& r->Ok_0.1 is Some <==> multi
                    &&& multi ==> is_transient_table(r->Ok_0.1->0, *custom)
                },
            },
        },
{
    match check_transient_custom_ai(custom) {
        Ok(()) => {},
        Err(e) => return Err(e),
    }
    match check_custom_endpoint(requested, saved) {
        Ok(()) => {},
        Err(e) => return Err(e),
    }
    if !configured {
        return Err(invalid_argument("custom AI configuration is invalid"));
    }
    let multi = match custom.multi_model {
        Some(wanted) => wanted,
        None => true,
    };
    let routes = if multi {
        Some(build_transient_custom_routes(custom))
    } else {
        None
    };
    Ok(
        (
            ResolvedAiGateway {
                gateway: GatewayKind::Custom,
                has_custom_router: multi,
                use_builtin_router: false,
                admission: Some(
                    AiCallAdmission { user_id: user_id.to_owned(), charge_daily_quota: false },
                ),
            },
            routes,
        ),
    )
}

/// A request that no account stands behind reaches no model at all, and the built-in one
/// is always charged to the account that asked.
pub proof fn lemma_every_call_is_accountable(
    resolved: ResolvedAiGateway,
    user_id: Option<&str>,
    mode: Option<AiMode>,
)
    requires
        match (user_id, mode) {
            (Some(user), Some(AiMode::Builtin)) => resolved.is_builtin_for(user@),
            _ => resolved.is_disabled(),
        },
    ensures
        user_id is None ==> resolved.gateway is Disabled && !resolved.use_builtin_router,
        resolved.gateway is Builtin ==> resolved.admission is Some
            && resolved.admission->0.charge_daily_quota && Some(resolved.admission->0.user_id@)
            == str_view(user_id),
        resolved.admission is None ==> resolved.gateway is Disabled,
{
}

// ---------------------------------------------------------------------------
// Routes of a provider that comes with the request
// ---------------------------------------------------------------------------

/// The task that a name stands for.
pub open spec fn task_named(name: Seq<char>) -> Option<AiTaskType> {
    if name == "intent_parse"@ {
        Some(AiTaskType::IntentParse)
    } else if name == "rank_explain"@ || name == "rank_analysis"@ {
        Some(AiTaskType::RankExplain)
    } else if name == "compare_games"@ {
        Some(AiTaskType::CompareGames)
    } else if name == "group_advice"@ {
        Some(AiTaskType::GroupAdvice)
    } else if name == "game_summary"@ {
        Some(AiTaskType::GameSummary)
    } else if name == "data_quality"@ {
        Some(AiTaskType::DataQuality)
    } else if name == "feature_extract"@ {
        Some(AiTaskType::FeatureExtract)
    } else if name == "embed"@ {
        Some(AiTaskType::Embed)
    } else {
        None
    }
}

pub fn parse_ai_task(raw: &str) -> (r: Result<AiTaskType, ()>)
    ensures
        r == (match task_named(trimmed(raw@)) {
            Some(task) => Ok::<AiTaskType, ()>(task),
            None => Err(()),
        }),
{
    let name = trim(raw);
    let n = name.as_str();
    if str_eq(n, "intent_parse") {
        Ok(AiTaskType::IntentParse)
    } else if str_eq(n, "rank_explain") || str_eq(n, "rank_analysis") {
        Ok(AiTaskType::RankExplain)
    } else if str_eq(n, "compare_games") {
        Ok(AiTaskType::CompareGames)
    } else if str_eq(n, "group_advice") {
        Ok(AiTaskType::GroupAdvice)
    } else if str_eq(n, "game_summary") {
        Ok(AiTaskType::GameSummary)
    } else if str_eq(n, "data_quality") {
        Ok(AiTaskType::DataQuality)
    } else if str_eq(n, "feature_extract") {
        Ok(AiTaskType::FeatureExtract)
    } else if str_eq(n, "embed") {
        Ok(AiTaskType::Embed)
    } else {
        Err(())
    }
}

/// What a route says, as a value.
pub ghost struct RouteView {
    pub task: AiTaskType,
    pub primary: Seq<char>,
    pub fallbacks: Seq<Seq<char>>,
    pub protocols: Seq<ApiProtocol>,
    pub timeout_secs: int,
    pub max_output_tokens: int,
    pub enabled: bool,
    pub version: Seq<char>,
}

pub open spec fn route_view(route: TaskRouteConfig) -> RouteView {
    RouteView {
        task: route.task,
        primary: route.primary_model@,
        fallbacks: views(route.fallback_models@),
        protocols: route.protocol_preference@,
        timeout_secs: route.timeout_secs as int,
        max_output_tokens: route.max_output_tokens as int,
        enabled: route.enabled,
        version: route.route_version@,
    }
}

pub open spec fn table_view(table: RouteTable) -> Seq<RouteView> {
    Seq::new(table.routes@.len(), |i: int| route_view(table.routes@[i]))
}

/// The models of a list, trimmed, without blanks and without the primary one.
pub open spec fn other_models(models: Seq<Seq<char>>, primary: Seq<char>) -> Seq<Seq<char>>
    decreases models.len(),
{
    if models.len() == 0 {
        Seq::empty()
    } else {
        let front = other_models(models.drop_last(), primary);
        let model = trimmed(models.last());
        if model.len() == 0 || model == primary {
            front
        } else {
            front.push(model)
        }
    }
}

fn fallback_list(models: &Vec<String>, primary: &str) -> (r: Vec<String>)
    ensures
        views(r@) == other_models(views(models@), primary@),
{
    let mut out: Vec<String> = Vec::new();
    let mut i: usize = 0;
    assert(views(models@).take(0) =~= Seq::empty());
    assert(views(out@) =~= Seq::empty());
    while i < models.len()
        invariant
            0 <= i <= models@.len(),
            views(out@) == other_models(views(models@).take(i as int), primary@),
        decreases models@.len() - i,
    {
        proof {
            let next = views(models@).take(i + 1);
            assert(next.drop_last() =~= views(models@).take(i as int));
            assert(next.last() == models@[i as int]@);
        }
        let model = trim(models[i].as_str());
        if !model.as_str().is_empty() && !str_eq(model.as_str(), primary) {
            proof {
                assert(views(out@.push(model)) =~= views(out@).push(model@));
            }
            out.push(model);
        }
        i = i + 1;
    }
    assert(views(models@).take(models@.len() as int) =~= views(models@));
    out
}

pub open spec fn has_route(table: Seq<RouteView>, task: AiTaskType) -> bool {
    exists|i: int| 0 <= i < table.len() && (#[trigger] table[i]).task == task
}

/// The route of a task that the table does not have yet.
pub open spec fn added_route(
    task: AiTaskType,
    primary: Seq<char>,
    fallbacks: Seq<Seq<char>>,
) -> RouteView {
    RouteView {
        task,
        primary,
        fallbacks,
        protocols: chat_first(),
        timeout_secs: 20,
        max_output_tokens: 1800,
        enabled: true,
        version: DEFAULT_ROUTE_VERSION@,
    }
}

/// The table with one row of the device laid over it. A row for an unknown task, or
/// without a model, changes nothing.
pub open spec fn with_row(table: Seq<RouteView>, row: CustomRoute) -> Seq<RouteView> {
    let primary = trimmed(row.primary_model@);
    match task_named(trimmed(row.task@)) {
        Some(task) => if primary.len() == 0 {
            table
        } else {
            let fallbacks = other_models(views(row.fallback_models@), primary);
            if has_route(table, task) {
                Seq::new(
                    table.len(),
                    |i: int|
                        if table[i].task == task {
                            RouteView { primary, fallbacks, enabled: true, ..table[i] }
                        } else {
                            table[i]
                        },
                )
            } else {
                table.push(added_route(task, primary, fallbacks))
            }
        },
        None => table,
    }
}

/// The table with all the rows laid over it, one after the other.
pub open spec fn with_rows(table: Seq<RouteView>, rows: Seq<CustomRoute>) -> Seq<RouteView>
    decreases rows.len(),
{
    if rows.len() == 0 {
        table
    } else {
        with_row(with_rows(table, rows.drop_last()), rows.last())
    }
}

/// The tasks that a device's single model serves.
pub open spec fn device_task(task: AiTaskType) -> bool {
    task is IntentParse || task is RankExplain || task is CompareGames || task is GroupAdvice
        || task is GameSummary
}

/// The shared fallback of a single-model device, when it has one.
pub open spec fn shared_fallback(fallback: Option<Seq<char>>, model: Seq<char>) -> Seq<Seq<char>> {
    match fallback {
        Some(text) => if trimmed(text).len() > 0 && trimmed(text) != model {
            seq![trimmed(text)]
        } else {
            Seq::empty()
        },
        None => Seq::empty(),
    }
}

/// The table in which one model serves every task that a client waits for.
pub open spec fn with_single_model(
    table: Seq<RouteView>,
    model: Seq<char>,
    fallbacks: Seq<Seq<char>>,
) -> Seq<RouteView> {
    Seq::new(
        table.len(),
        |i: int|
            if device_task(table[i].task) {
                RouteView { primary: model, fallbacks, ..table[i] }
            } else {
                table[i]
            },
    )
}

/// The table that serves a request with the models of the device: its routes where it names
/// any, and else its model and the shared fallback.
pub open spec fn transient_view(
    defaults: Seq<RouteView>,
    custom: TransientCustomAiRequest,
) -> Seq<RouteView> {
    match custom.routes {
        Some(rows) if rows@.len() > 0 => with_rows(defaults, rows@),
        _ => with_single_model(
            defaults,
            custom.model@,
            shared_fallback(opt_view(custom.fallback_model), custom.model@),
        ),
    }
}

/// The table is the default one with the device's models laid over it.
pub open spec fn is_transient_table(
    table: RouteTable,
    custom: TransientCustomAiRequest,
) -> bool {
    &&& table.wf()
    &&& exists|defaults: RouteTable| #[trigger]
        is_default_table(defaults) && table_view(table) == transient_view(
            table_view(defaults),
            custom,
        )
}

fn lay_row(table: RouteTable, row: &CustomRoute) -> (r: RouteTable)
    requires
        table.wf(),
    ensures
        r.wf(),
        table_view(r) == with_row(table_view(table), *row),
{
    let mut table = table;
    let ghost before = table;
    let ghost seen = table_view(table);
    let task = match parse_ai_task(row.task.as_str()) {
        Ok(task) => task,
        Err(()) => return table,
    };
    let primary = trim(row.primary_model.as_str());
    if primary.as_str().is_empty() {
        return table;
    }
    let ghost wanted = primary@;
    let fallbacks = fallback_list(&row.fallback_models, primary.as_str());
    let ghost others = views(fallbacks@);
    match table.position(task) {
        Some(at) => {
            proof {
                assert(seen[at as int].task == task);
                assert(has_route(seen, task));
            }
            table.routes[at].primary_model = primary;
            table.routes[at].fallback_models = fallbacks;
            table.routes[at].enabled = true;
            proof {
                assert forall|i: int| 0 <= i < before.routes@.len() && i != at implies (
                #[trigger] before.routes@[i]).task != task by {
                    if i < at {
                        assert(before.routes@[i].task != before.routes@[at as int].task);
                    } else {
                        assert(before.routes@[at as int].task != before.routes@[i].task);
                    }
                }
                assert forall|i: int| 0 <= i < before.routes@.len() implies (
                #[trigger] table.routes@[i]).task == before.routes@[i].task by {
                }
                assert(table_view(table) =~= with_row(seen, *row));
            }
            table
        },
        None => {
            let mut protocols: Vec<ApiProtocol> = Vec::new();
            protocols.push(ApiProtocol::ChatCompletions);
            protocols.push(ApiProtocol::Responses);
            proof {
                assert(!has_route(seen, task)) by {
                    if has_route(seen, task) {
                        let i = choose|i: int|
                            0 <= i < seen.len() && (#[trigger] seen[i]).task == task;
                        assert(before.routes@[i].task == task);
                    }
                }
                assert(protocols@ =~= chat_first());
            }
            table.routes.push(
                TaskRouteConfig {
                    task,
                    primary_model: primary,
                    fallback_models: fallbacks,
                    protocol_preference: protocols,
                    timeout_secs: 20,
                    max_output_tokens: 1_800,
                    enabled: true,
                    route_version: DEFAULT_ROUTE_VERSION.to_owned(),
                },
            );
            proof {
                assert forall|i: int| 0 <= i < before.routes@.len() implies (
                #[trigger] before.routes@[i]).task != task by {
                    if before.routes@[i].task == task {
                        assert(before.has(task));
                    }
                }
                assert(table_view(table) =~= with_row(seen, *row));
            }
            table
        },
    }
}

fn lay_rows(table: RouteTable, rows: &Vec<CustomRoute>) -> (r: RouteTable)
    requires
        table.wf(),
    ensures
        r.wf(),
        table_view(r) == with_rows(table_view(table), rows@),
{
    let ghost start = table_view(table);
    let mut table = table;
    let mut i: usize = 0;
    assert(rows@.take(0) =~= Seq::empty());
    while i < rows.len()
        invariant
            0 <= i <= rows@.len(),
            table.wf(),
            table_view(table) == with_rows(start, rows@.take(i as int)),
        decreases rows@.len() - i,
    {
        proof {
            assert(rows@.take(i + 1).drop_last() =~= rows@.take(i as int));
        }
        table = lay_row(table, &rows[i]);
        i = i + 1;
    }
    assert(rows@.take(rows@.len() as int) =~= rows@);
    table
}

fn lay_single_model(table: RouteTable, model: &str, fallback: &Option<String>) -> (r: RouteTable)
    requires
        table.wf(),
    ensures
        r.wf(),
        table_view(r) == with_single_model(
            table_view(table),
            model@,
            shared_fallback(opt_view(*fallback), model@),
        ),
{
    let mut table = table;
    let ghost before = table.routes@;
    let ghost seen = table_view(table);
    let ghost fallbacks = shared_fallback(opt_view(*fallback), model@);
    let n: usize = table.routes.len();
    let mut i: usize = 0;
    while i < n
        invariant
            0 <= i <= n == before.len() == table.routes@.len(),
            fallbacks == shared_fallback(opt_view(*fallback), model@),
            forall|j: int|
                0 <= j < n ==> (#[trigger] table.routes@[j]).task == before[j].task,
            forall|j: int| i <= j < n ==> #[trigger] table.routes@[j] == before[j],
            forall|j: int|
                0 <= j < i ==> route_view(#[trigger] table.routes@[j]) == (if device_task(
                    before[j].task,
                ) {
                    RouteView { primary: model@, fallbacks, ..route_view(before[j]) }
                } else {
                    route_view(before[j])
                }),
        decreases n - i,
    {
        let served = matches!(
            table.routes[i].task,
            AiTaskType::IntentParse | AiTaskType::RankExplain | AiTaskType::CompareGames
                | AiTaskType::GroupAdvice | AiTaskType::GameSummary
        );
        if served {
            let mut list: Vec<String> = Vec::new();
            match fallback {
                Some(text) => {
                    let name = trim(text.as_str());
                    if !name.as_str().is_empty() && !str_eq(name.as_str(), model) {
                        list.push(name);
                    }
                },
                None => {},
            }
            assert(views(list@) =~= fallbacks);
            table.routes[i].primary_model = model.to_owned();
            table.routes[i].fallback_models = list;
        }
        i = i + 1;
    }
    proof {
        assert forall|j: int, k: int| 0 <= j < k < table.routes@.len() implies (
        #[trigger] table.routes@[j]).task != (#[trigger] table.routes@[k]).task by {
            assert(before[j].task != before[k].task);
        }
        assert forall|j: int| 0 <= j < n implies #[trigger] table_view(table)[j]
            == with_single_model(seen, model@, fallbacks)[j] by {
            assert(route_view(table.routes@[j]) == table_view(table)[j]);
            assert(seen[j] == route_view(before[j]));
        }
        assert(table_view(table) =~= with_single_model(seen, model@, fallbacks));
    }
    table
}

pub fn build_transient_custom_routes(custom: &TransientCustomAiRequest) -> (r: RouteTable)
    ensures
        is_transient_table(r, *custom),
{
    let table = default_task_routes();
    let ghost defaults = table;
    assert(is_default_table(defaults));
    match &custom.routes {
        Some(rows) if rows.len() > 0 => lay_rows(table, rows),
        _ => lay_single_model(table, custom.model.as_str(), &custom.fallback_model),
    }
}

} // verus!
