//! Letting a model enhance a list of candidates: what is asked, when it is asked, and what
//! becomes of the answer. Whatever fails, the deterministic list stands.

use vstd::prelude::*;

use crate::ai::error::{failure_reason, safe_ai_failure_reason, AiError};
use crate::ai::route::{AiTaskType, TaskRouteConfig};
use crate::ai::sanitize::{data_block, sanitized, wrap_untrusted_data_block};
use crate::hashing::{bytes_hex, hex_prefix, hex_sha256, lemma_bytes_hex_shape, sha256, sha256_digest};
use crate::numbers::{decimal, u64_decimal};
use crate::server::ai_rank::AiRankResult;
use crate::server::ai_requests::AiStatus;
use crate::server::model_json::{deref_route, identity_json, route_identity_json};
use crate::sort::{in_order, sort_stable, stable_sorted, Precedence};
use crate::text::{clone_strings, join, join2, join3, joined, opt_view, views};

verus! {

// ---------------------------------------------------------------------------
// What a model is asked about
// ---------------------------------------------------------------------------

/// One candidate as the model sees it: its identifier and its facts as JSON text.
#[derive(Debug)]
pub struct CompactRow {
    pub app_id: u64,
    pub json: String,
}

/// By application identifier.
pub struct RowOrder;

impl Precedence<CompactRow> for RowOrder {
    open spec fn orders(&self, item: CompactRow) -> bool {
        true
    }

    open spec fn precedes(&self, a: CompactRow, b: CompactRow) -> bool {
        a.app_id <= b.app_id
    }

    proof fn lemma_total(&self, a: CompactRow, b: CompactRow) {
    }

    proof fn lemma_transitive(&self, a: CompactRow, b: CompactRow, c: CompactRow) {
    }

    fn may_precede(&self, a: &CompactRow, b: &CompactRow) -> (r: bool) {
        a.app_id <= b.app_id
    }
}

pub open spec fn row_texts(rows: Seq<CompactRow>) -> Seq<Seq<char>> {
    rows.map_values(|row: CompactRow| row.json@)
}

/// The rows as one JSON array, in the order of their identifiers.
pub open spec fn rows_json(rows: Seq<CompactRow>) -> Seq<char> {
    "["@ + joined(row_texts(stable_sorted(rows, &RowOrder)), ","@) + "]"@
}

/// A stable order of candidates keeps the prompt, and with it the key of the answer, the
/// same however the candidates were ranked.
pub fn compact_json(rows: Vec<CompactRow>) -> (r: String)
    ensures
        r@ == rows_json(rows@),
{
    let by = RowOrder;
    let sorted = sort_stable(rows, &by);
    let ghost all = sorted@;
    let mut texts: Vec<String> = Vec::new();
    for row in it: sorted
        invariant
            it.seq() == all,
            views(texts@) == row_texts(all).take(it.index()),
    {
        let ghost before = texts@;
        let ghost text = row.json@;
        texts.push(row.json);
        proof {
            assert(views(texts@) =~= views(before).push(text));
            assert(views(texts@) =~= row_texts(all).take(it.index() + 1));
        }
    }
    assert(views(texts@) =~= row_texts(all));
    join3("[", join(&texts, ",").as_str(), "]")
}

/// Two lists of the same rows, no two with the same identifier.
pub open spec fn same_distinct_rows(a: Seq<CompactRow>, b: Seq<CompactRow>) -> bool {
    &&& a.to_multiset() == b.to_multiset()
    &&& forall|i: int, j: int|
        0 <= i < j < a.len() ==> (#[trigger] a[i]).app_id != (#[trigger] a[j]).app_id
}

/// The prompt does not depend on the order in which the candidates came.
pub proof fn lemma_rows_json_ignores_order(a: Seq<CompactRow>, b: Seq<CompactRow>)
    requires
        same_distinct_rows(a, b),
    ensures
        rows_json(a) == rows_json(b),
{
    let x = stable_sorted(a, &RowOrder);
    let y = stable_sorted(b, &RowOrder);
    crate::sort::lemma_sorted_in_order(a, &RowOrder);
    crate::sort::lemma_sorted_in_order(b, &RowOrder);
    crate::sort::lemma_sorted_rearranges(a, &RowOrder);
    crate::sort::lemma_sorted_rearranges(b, &RowOrder);
    assert forall|p: CompactRow, q: CompactRow|
        a.contains(p) && a.contains(q) && p.app_id == q.app_id implies p == q by {
        let i = choose|i: int| 0 <= i < a.len() && a[i] == p;
        let j = choose|j: int| 0 <= j < a.len() && a[j] == q;
        if i < j {
            assert(a[i].app_id != a[j].app_id);
        } else if j < i {
            assert(a[j].app_id != a[i].app_id);
        }
    }
    crate::sort::lemma_sorted_members(a, &RowOrder);
    lemma_sorted_rows_unique(x, y, a);
}

proof fn lemma_sorted_rows_unique(x: Seq<CompactRow>, y: Seq<CompactRow>, members: Seq<CompactRow>)
    requires
        x.to_multiset() == y.to_multiset(),
        in_order(x, &RowOrder),
        in_order(y, &RowOrder),
        forall|r: CompactRow| #[trigger] x.contains(r) ==> members.contains(r),
        forall|p: CompactRow, q: CompactRow|
            members.contains(p) && members.contains(q) && p.app_id == q.app_id ==> p == q,
    ensures
        x == y,
    decreases x.len(),
{
    broadcast use vstd::seq_lib::group_to_multiset_ensures;

    assert(x.len() == x.to_multiset().len());
    assert(y.len() == y.to_multiset().len());
    if x.len() == 0 {
        assert(x =~= y);
    } else {
        let p = x.last();
        let q = y.last();
        assert(x.contains(p) && y.contains(q));
        assert(x.to_multiset().count(q) > 0);
        assert(x.contains(q));
        assert(y.to_multiset().count(p) > 0);
        assert(y.contains(p));
        let i = choose|i: int| 0 <= i < x.len() && x[i] == q;
        let j = choose|j: int| 0 <= j < y.len() && y[j] == p;
        if i < x.len() - 1 {
            assert(RowOrder.precedes(x[i], x[x.len() - 1]));
        }
        if j < y.len() - 1 {
            assert(RowOrder.precedes(y[j], y[y.len() - 1]));
        }
        assert(p.app_id == q.app_id);
        assert(p == q);
        let x0 = x.drop_last();
        let y0 = y.drop_last();
        assert(x0.push(p) =~= x);
        assert(y0.push(q) =~= y);
        assert(x0.to_multiset() =~= y0.to_multiset()) by {
            assert(x.to_multiset() == x0.to_multiset().insert(p));
            assert(y.to_multiset() == y0.to_multiset().insert(q));
            assert(x0.to_multiset() =~= x.to_multiset().remove(p));
            assert(y0.to_multiset() =~= y.to_multiset().remove(p));
        }
        assert forall|r: CompactRow| #[trigger] x0.contains(r) implies members.contains(r) by {
            let k = choose|k: int| 0 <= k < x0.len() && x0[k] == r;
            assert(x[k] == r);
            assert(x.contains(r));
        }
        assert forall|a: int, b: int| 0 <= a < b < x0.len() implies RowOrder.precedes(
            #[trigger] x0[a],
            #[trigger] x0[b],
        ) by {
            assert(RowOrder.precedes(x[a], x[b]));
        }
        assert forall|a: int, b: int| 0 <= a < b < y0.len() implies RowOrder.precedes(
            #[trigger] y0[a],
            #[trigger] y0[b],
        ) by {
            assert(RowOrder.precedes(y[a], y[b]));
        }
        lemma_sorted_rows_unique(x0, y0, members);
    }
}

/// What the model is given: the candidates first and the query last, both as untrusted
/// data, so that queries about the same candidates share the longest prefix.
pub fn rank_data_prompt(candidates_json: &str, query: &str) -> (r: String)
    ensures
        r@ == data_block("candidates_json"@, sanitized(candidates_json@, 12_000)) + "\n\n"@
            + data_block("user_query"@, sanitized(query@, 500)),
{
    let candidates = wrap_untrusted_data_block("candidates_json", candidates_json, 12_000);
    let asked = wrap_untrusted_data_block("user_query", query, 500);
    join3(candidates.as_str(), "\n\n", asked.as_str())
}

/// What the model is given to read a request: the query as untrusted data.
pub fn intent_data_prompt(query: &str) -> (r: String)
    ensures
        r@ == data_block("user_query"@, sanitized(query@, 500)),
{
    wrap_untrusted_data_block("user_query", query, 500)
}

// ---------------------------------------------------------------------------
// Names of answers
// ---------------------------------------------------------------------------

/// The bytes of a text and the zero byte that ends it.
pub open spec fn field(text: Seq<char>) -> Seq<u8> {
    vstd::utf8::encode_utf8(text).push(0)
}

fn push_bytes(out: &mut Vec<u8>, text: &str)
    ensures
        final(out)@ == old(out)@ + vstd::utf8::encode_utf8(text@),
{
    let ghost start = out@;
    let bytes = text.as_bytes();
    let mut i: usize = 0;
    assert(out@ =~= start + bytes@.take(0));
    while i < bytes.len()
        invariant
            0 <= i <= bytes@.len(),
            out@ == start + bytes@.take(i as int),
        decreases bytes@.len() - i,
    {
        out.push(bytes[i]);
        i = i + 1;
        assert(out@ =~= start + bytes@.take(i as int));
    }
    assert(bytes@.take(i as int) =~= bytes@);
}

fn push_field(out: &mut Vec<u8>, text: &str)
    ensures
        final(out)@ == old(out)@ + field(text@),
{
    let ghost start = out@;
    push_bytes(out, text);
    out.push(0);
    assert(out@ =~= start + field(text@));
}

/// What the name of a cached ranking is made of.
pub open spec fn rank_key_bytes(
    provider_identity: Seq<char>,
    scope: Seq<char>,
    prompt_version: Seq<char>,
    route_version: Seq<char>,
    algorithm_version: Seq<char>,
    query: Seq<char>,
    candidates_json: Seq<char>,
) -> Seq<u8> {
    field(provider_identity) + field(scope) + field(prompt_version) + field(route_version) + field(
        algorithm_version,
    ) + field(query) + vstd::utf8::encode_utf8(candidates_json)
}

/// The name under which a ranking is cached.
pub fn nl_ai_cache_key(
    query: &str,
    candidates_json: &str,
    provider_identity: &str,
    cache_scope: &str,
    route_version: &str,
    prompt_version: &str,
    algorithm_version: &str,
) -> (r: String)
    ensures
        r@ == "nl-rank:"@ + bytes_hex(
            sha256(
                rank_key_bytes(
                    provider_identity@,
                    cache_scope@,
                    prompt_version@,
                    route_version@,
                    algorithm_version@,
                    query@,
                    candidates_json@,
                ),
            ),
        ),
{
    let mut bytes: Vec<u8> = Vec::new();
    push_field(&mut bytes, provider_identity);
    assert(bytes@ =~= field(provider_identity@));
    push_field(&mut bytes, cache_scope);
    push_field(&mut bytes, prompt_version);
    push_field(&mut bytes, route_version);
    push_field(&mut bytes, algorithm_version);
    push_field(&mut bytes, query);
    push_bytes(&mut bytes, candidates_json);
    join2("nl-rank:", hex_sha256(bytes.as_slice()).as_str())
}

/// The name of a provider together with the route that a task takes through it.
pub fn ai_route_cache_identity(
    provider_identity: &str,
    route: Option<&TaskRouteConfig>,
    task: AiTaskType,
) -> (r: String)
    requires
        route is Some ==> route->0.timeout_secs * 1_000 <= u64::MAX,
    ensures
        r@ == "ai-route:"@ + bytes_hex(
            sha256(
                vstd::utf8::encode_utf8(
                    identity_json(provider_identity@, deref_route(route), task),
                ),
            ),
        ),
{
    let identity = route_identity_json(provider_identity, route, task);
    join2("ai-route:", hex_sha256(identity.as_str().as_bytes()).as_str())
}

/// The bytes of a number, the least significant first.
pub open spec fn le_bytes(n: u64) -> Seq<u8> {
    vstd::bytes::spec_u64_to_le_bytes(n)
}

/// An identifier for an analysis, from the time and something that does not repeat.
pub fn new_analysis_id(now_ms: i64, entropy: u64) -> (r: String)
    ensures
        r@ == "an_"@ + bytes_hex(
            sha256(le_bytes(now_ms as u64) + le_bytes(entropy)).take(12),
        ),
        r@.len() == 27,
{
    let mut bytes = vstd::bytes::u64_to_le_bytes(now_ms as u64);
    let ghost head = bytes@;
    let mut tail = vstd::bytes::u64_to_le_bytes(entropy);
    let ghost rest = tail@;
    bytes.append(&mut tail);
    assert(bytes@ =~= head + rest);
    let digest = sha256_digest(bytes.as_slice());
    proof {
        reveal_strlit("an_");
        lemma_bytes_hex_shape(digest@.take(12));
    }
    join2("an_", hex_prefix(&digest, 12).as_str())
}

/// `getrandom::fill` on sixteen bytes: the bytes, or nothing where the system has no
/// randomness to give. Which bytes they are is left to chance.
#[verifier::external_body]
fn random_bytes() -> (r: Option<Vec<u8>>)
    ensures
        r matches Some(bytes) ==> bytes@.len() == 16,
{
    let mut bytes = [0_u8; 16];
    match getrandom::fill(&mut bytes) {
        Ok(()) => Some(bytes.to_vec()),
        Err(_) => None,
    }
}

/// The identifier of a request: from the random bytes, where there are any, and otherwise
/// from what tells this process and this request apart.
pub open spec fn request_id_of(bytes: Option<Seq<u8>>, process_id: u32, counter: u64) -> Seq<char> {
    match bytes {
        Some(b) => "req-"@ + bytes_hex(b),
        None => "req-fallback-"@ + decimal(process_id as nat) + "-"@ + decimal(counter as nat),
    }
}

pub fn request_id_from(bytes: Option<Vec<u8>>, process_id: u32, counter: u64) -> (r: String)
    ensures
        r@ == request_id_of(
            match bytes {
                Some(b) => Some(b@),
                None => None,
            },
            process_id,
            counter,
        ),
{
    match bytes {
        Some(b) => {
            assert(b@.take(b@.len() as int) =~= b@);
            join2("req-", hex_prefix(&b, b.len()).as_str())
        },
        None => {
            let mut out = join3(
                "req-fallback-",
                u64_decimal(process_id as u64).as_str(),
                "-",
            );
            out.append(u64_decimal(counter).as_str());
            out
        },
    }
}

/// A fresh identifier for a request that brought none.
pub fn new_request_id(process_id: u32, counter: u64) -> (r: String)
    ensures
        r@ == request_id_of(None, process_id, counter) || exists|bytes: Seq<u8>|
            bytes.len() == 16 && r@ == #[trigger] request_id_of(Some(bytes), process_id, counter),
{
    let bytes = random_bytes();
    request_id_from(bytes, process_id, counter)
}

// ---------------------------------------------------------------------------
// Accepting the answer
// ---------------------------------------------------------------------------

/// What validation made of an answer: as it stands, after taking out what is not backed by
/// evidence, and with the rankings alone.
#[derive(Debug)]
pub struct RankAttempts {
    pub strict: Result<AiRankResult, AiError>,
    /// The sanitised answer, and whether anything was taken out.
    pub sanitized: Option<(AiRankResult, bool)>,
    /// The answer reduced to its rankings; none where it has no list of them.
    pub ranking_only: Option<Result<AiRankResult, AiError>>,
}

/// The most of an answer that can be accepted, and the notice that goes with it.
pub open spec fn degraded(
    r: Result<(AiRankResult, Option<String>), AiError>,
    attempts: RankAttempts,
) -> bool {
    match attempts.strict {
        Ok(result) => r == Ok::<(AiRankResult, Option<String>), AiError>((result, None)),
        Err(AiError::InvalidOutput(reason)) => match attempts.sanitized {
            Some((result, stripped)) => r matches Ok((accepted, notice)) && accepted == result
                && opt_view(notice) == (if stripped {
                Some(
                    "AI output was sanitized after strict validation reported: "@ + reason@,
                )
            } else {
                None
            }),
            None => match attempts.ranking_only {
                Some(Ok(result)) => r matches Ok((accepted, notice)) && accepted == result
                    && opt_view(notice) == Some(
                    "AI ranking applied; generated explanations were discarded because strict validation reported: "@
                        + reason@,
                ),
                _ => r matches Err(AiError::InvalidOutput(text)) && text@ == reason@,
            },
        },
        Err(error) => r == Err::<(AiRankResult, Option<String>), AiError>(error),
    }
}

pub fn accept_most(attempts: RankAttempts) -> (r: Result<(AiRankResult, Option<String>), AiError>)
    ensures
        degraded(r, attempts),
{
    match attempts.strict {
        Ok(result) => Ok((result, None)),
        Err(error) => match error {
            AiError::InvalidOutput(reason) => match attempts.sanitized {
                Some((result, stripped)) => {
                    let notice = if stripped {
                        Some(
                            join2(
                                "AI output was sanitized after strict validation reported: ",
                                reason.as_str(),
                            ),
                        )
                    } else {
                        None
                    };
                    Ok((result, notice))
                },
                None => match attempts.ranking_only {
                    Some(Ok(result)) => Ok(
                        (
                            result,
                            Some(
                                join2(
                                    "AI ranking applied; generated explanations were discarded because strict validation reported: ",
                                    reason.as_str(),
                                ),
                            ),
                        ),
                    ),
                    _ => Err(AiError::InvalidOutput(reason)),
                },
            },
            other => Err(other),
        },
    }
}

/// What a model said of one candidate, each field as the JSON that it was given in; none where
/// it was left out.
#[derive(Debug)]
pub struct RawRankItem {
    pub app_id: Option<String>,
    pub fit_score: Option<String>,
    pub confidence: Option<String>,
    pub reason_evidence_ids: Option<String>,
    pub reasons: Option<String>,
    pub cautions: Option<String>,
}

/// An answer of the ranking model before validation. `recommendations` is none where the answer
/// has no list of them.
#[derive(Debug)]
pub struct RawRankAnswer {
    pub recommendations: Option<Vec<RawRankItem>>,
    pub summary: Option<String>,
    pub summary_evidence_ids: Option<String>,
}

/// A field as it was given, and `null` where it was left out.
pub open spec fn given_or_null(field: Option<String>) -> Seq<char> {
    match field {
        Some(json) => json@,
        None => "null"@,
    }
}

/// `new` keeps of `old` the game, the fit and the confidence, and says nothing else.
pub open spec fn ranks_only(new: RawRankItem, old: RawRankItem) -> bool {
    &&& opt_view(new.app_id) == Some(given_or_null(old.app_id))
    &&& opt_view(new.fit_score) == Some(given_or_null(old.fit_score))
    &&& opt_view(new.confidence) == Some(given_or_null(old.confidence))
    &&& opt_view(new.reason_evidence_ids) == Some("[]"@)
    &&& opt_view(new.reasons) == Some("[]"@)
    &&& opt_view(new.cautions) == Some("[]"@)
}

/// `new` is `old` reduced to its rankings: the same list, without reasons, evidence, cautions
/// and summary.
pub open spec fn is_ranking_of(new: RawRankAnswer, old: RawRankAnswer) -> bool {
    &&& new.recommendations is Some && old.recommendations is Some
    &&& new.recommendations->0@.len() == old.recommendations->0@.len()
    &&& forall|i: int|
        0 <= i < new.recommendations->0@.len() ==> ranks_only(
            #[trigger] new.recommendations->0@[i],
            old.recommendations->0@[i],
        )
    &&& opt_view(new.summary) == Some("\"\""@)
    &&& opt_view(new.summary_evidence_ids) == Some("[]"@)
}

fn or_null(field: &Option<String>) -> (r: Option<String>)
    ensures
        opt_view(r) == Some(given_or_null(*field)),
{
    match field {
        Some(json) => Some(json.clone()),
        None => Some("null".to_owned()),
    }
}

/// The answer with its rankings alone; none where it has no list of them.
pub fn ranking_only(answer: &RawRankAnswer) -> (r: Option<RawRankAnswer>)
    ensures
        r is Some <==> answer.recommendations is Some,
        r matches Some(reduced) ==> is_ranking_of(reduced, *answer),
{
    let list = match &answer.recommendations {
        Some(list) => list,
        None => return None,
    };
    let mut kept: Vec<RawRankItem> = Vec::new();
    let mut i: usize = 0;
    while i < list.len()
        invariant
            0 <= i <= list@.len(),
            kept@.len() == i,
            forall|j: int| 0 <= j < i ==> ranks_only(#[trigger] kept@[j], list@[j]),
        decreases list@.len() - i,
    {
        kept.push(
            RawRankItem {
                app_id: or_null(&list[i].app_id),
                fit_score: or_null(&list[i].fit_score),
                confidence: or_null(&list[i].confidence),
                reason_evidence_ids: Some("[]".to_owned()),
                reasons: Some("[]".to_owned()),
                cautions: Some("[]".to_owned()),
            },
        );
        i = i + 1;
    }
    Some(
        RawRankAnswer {
            recommendations: Some(kept),
            summary: Some("\"\"".to_owned()),
            summary_evidence_ids: Some("[]".to_owned()),
        },
    )
}

/// What the third attempt came to: validation of the answer with its rankings alone.
pub open spec fn ranking_tried<V: Fn(&RawRankAnswer) -> Result<AiRankResult, AiError>>(
    result: Option<Result<AiRankResult, AiError>>,
    answer: RawRankAnswer,
    validate: V,
) -> bool {
    match result {
        None => answer.recommendations is None,
        Some(result) => exists|reduced: &RawRankAnswer| #[trigger]
            validate.ensures((reduced,), result) && is_ranking_of(*reduced, answer),
    }
}

/// The attempts that an answer needs, each made on what it is for: validation of the answer as
/// it stands; where its output is refused, the sanitised answer; and where there is none, the
/// rankings alone.
pub open spec fn attempted<
    V: Fn(&RawRankAnswer) -> Result<AiRankResult, AiError>,
    S: Fn(&RawRankAnswer) -> Option<(AiRankResult, bool)>,
>(attempts: RankAttempts, answer: RawRankAnswer, validate: V, sanitize: S) -> bool {
    &&& validate.ensures((&answer,), attempts.strict)
    &&& attempts.strict matches Err(AiError::InvalidOutput(_)) ==> sanitize.ensures(
        (&answer,),
        attempts.sanitized,
    ) && (attempts.sanitized is None ==> ranking_tried(attempts.ranking_only, answer, validate))
}

/// The result is the most that the attempts let stand.
pub open spec fn is_degraded_by<
    V: Fn(&RawRankAnswer) -> Result<AiRankResult, AiError>,
    S: Fn(&RawRankAnswer) -> Option<(AiRankResult, bool)>,
>(
    r: Result<(AiRankResult, Option<String>), AiError>,
    answer: RawRankAnswer,
    validate: V,
    sanitize: S,
) -> bool {
    exists|attempts: RankAttempts| #[trigger]
        attempted(attempts, answer, validate, sanitize) && degraded(r, attempts)
}

/// Accepts the most of an answer that `validate` and `sanitize` let stand. Nothing is tried
/// that an earlier attempt has made needless.
pub fn validate_rank_result_with_safe_degradation<
    V: Fn(&RawRankAnswer) -> Result<AiRankResult, AiError>,
    S: Fn(&RawRankAnswer) -> Option<(AiRankResult, bool)>,
>(answer: &RawRankAnswer, validate: V, sanitize: S) -> (r: Result<
    (AiRankResult, Option<String>),
    AiError,
>)
    requires
        forall|answer: &RawRankAnswer| #[trigger] validate.requires((answer,)),
        forall|answer: &RawRankAnswer| #[trigger] sanitize.requires((answer,)),
    ensures
        is_degraded_by(r, *answer, validate, sanitize),
{
    let strict = validate(answer);
    let refused_output = match &strict {
        Err(AiError::InvalidOutput(_)) => true,
        _ => false,
    };
    let sanitized = if refused_output {
        sanitize(answer)
    } else {
        None
    };
    let ranking = if refused_output && sanitized.is_none() {
        match ranking_only(answer) {
            Some(reduced) => {
                let result = validate(&reduced);
                assert(validate.ensures((&reduced,), result));
                Some(result)
            },
            None => None,
        }
    } else {
        None
    };
    let attempts = RankAttempts { strict, sanitized, ranking_only: ranking };
    assert(attempted(attempts, *answer, validate, sanitize));
    accept_most(attempts)
}

// ---------------------------------------------------------------------------
// Outcomes
// ---------------------------------------------------------------------------

/// What the client is told of the model's part.
#[derive(Debug)]
pub struct AiEnhanceOutcome {
    pub status: AiStatus,
    pub fallback_reason: Option<String>,
    pub summary: Option<String>,
    pub summary_evidence_ids: Vec<String>,
    pub model: Option<String>,
    pub protocol: Option<String>,
    pub route_version: Option<String>,
    pub used_model_fallback: bool,
    pub attempted_models: Vec<String>,
}

impl AiEnhanceOutcome {
    /// Nothing but a status and the reason for it.
    pub open spec fn says(self, status: AiStatus, reason: Option<Seq<char>>) -> bool {
        &&& self.status == status
        &&& opt_view(self.fallback_reason) == reason
        &&& self.summary is None
        &&& self.summary_evidence_ids@.len() == 0
        &&& self.model is None
        &&& self.protocol is None
        &&& self.route_version is None
        &&& !self.used_model_fallback
        &&& self.attempted_models@.len() == 0
    }

    fn bare(status: AiStatus, reason: Option<String>) -> (r: AiEnhanceOutcome)
        ensures
            r.says(status, opt_view(reason)),
    {
        AiEnhanceOutcome {
            status,
            fallback_reason: reason,
            summary: None,
            summary_evidence_ids: Vec::new(),
            model: None,
            protocol: None,
            route_version: None,
            used_model_fallback: false,
            attempted_models: Vec::new(),
        }
    }

    pub fn disabled(reason: &str) -> (r: AiEnhanceOutcome)
        ensures
            r.says(AiStatus::Disabled, Some(reason@)),
    {
        AiEnhanceOutcome::bare(AiStatus::Disabled, Some(reason.to_owned()))
    }

    pub fn fallback(reason: &str) -> (r: AiEnhanceOutcome)
        ensures
            r.says(AiStatus::Fallback, Some(reason@)),
    {
        AiEnhanceOutcome::bare(AiStatus::Fallback, Some(reason.to_owned()))
    }

    pub fn pending(reason: &str) -> (r: AiEnhanceOutcome)
        ensures
            r.says(AiStatus::Pending, Some(reason@)),
    {
        AiEnhanceOutcome::bare(AiStatus::Pending, Some(reason.to_owned()))
    }
}

impl Default for AiEnhanceOutcome {
    fn default() -> (r: AiEnhanceOutcome)
        ensures
            r.says(AiStatus::Fallback, None),
    {
        AiEnhanceOutcome::bare(AiStatus::Fallback, None)
    }
}

/// What came of a request for an enhancement.
#[derive(Debug)]
pub enum EnhanceEvent {
    /// No candidate can be shown to a model.
    NoCandidates,
    /// An answer that was cached is still valid.
    CacheHit { result: AiRankResult, model: String, route_version: String },
    /// No model may be asked on this account.
    NotAdmitted { reason: String },
    /// The account has no call left.
    Refused { reason: String },
    /// The call failed, or its answer was not accepted at all.
    Failed { error: AiError, general: String },
    /// An answer was accepted, possibly with a notice.
    Accepted {
        result: AiRankResult,
        notice: Option<String>,
        model: String,
        protocol: Option<String>,
        route_version: String,
        used_model_fallback: bool,
        attempted_models: Vec<String>,
    },
}

/// A summary that says nothing is left out.
pub open spec fn summary_shown(summary: Seq<char>) -> Option<Seq<char>> {
    if summary.len() == 0 {
        None
    } else {
        Some(summary)
    }
}

/// The outcome of an event, and the result that is applied to the candidates: only an
/// accepted or cached answer is.
pub open spec fn settles(
    outcome: AiEnhanceOutcome,
    applied: Option<AiRankResult>,
    event: EnhanceEvent,
) -> bool {
    match event {
        EnhanceEvent::NoCandidates => applied is None && outcome.says(
            AiStatus::Fallback,
            Some("no valid candidates for AI analysis"@),
        ),
        EnhanceEvent::NotAdmitted { reason } => applied is None && outcome.says(
            AiStatus::Fallback,
            Some(reason@),
        ),
        EnhanceEvent::Refused { reason } => applied is None && outcome.says(
            AiStatus::Fallback,
            Some(reason@),
        ),
        EnhanceEvent::Failed { error, general } => applied is None && outcome.says(
            AiStatus::Fallback,
            Some(failure_reason(error, general@)),
        ),
        EnhanceEvent::CacheHit { result, model, route_version } => {
            &&& applied == Some(result)
            &&& outcome.status is Cached
            &&& outcome.fallback_reason is None
            &&& opt_view(outcome.summary) == summary_shown(result.summary@)
            &&& views(outcome.summary_evidence_ids@) == views(result.summary_evidence_ids@)
            &&& opt_view(outcome.model) == Some(model@)
            &&& outcome.protocol is None
            &&& opt_view(outcome.route_version) == Some(route_version@)
            &&& !outcome.used_model_fallback
            &&& outcome.attempted_models@.len() == 0
        },
        EnhanceEvent::Accepted {
            result,
            notice,
            model,
            protocol,
            route_version,
            used_model_fallback,
            attempted_models,
        } => {
            &&& applied == Some(result)
            &&& outcome.status is Used
            &&& opt_view(outcome.fallback_reason) == opt_view(notice)
            &&& opt_view(outcome.summary) == summary_shown(result.summary@)
            &&& views(outcome.summary_evidence_ids@) == views(result.summary_evidence_ids@)
            &&& opt_view(outcome.model) == Some(model@)
            &&& opt_view(outcome.protocol) == opt_view(protocol)
            &&& opt_view(outcome.route_version) == Some(route_version@)
            &&& outcome.used_model_fallback == used_model_fallback
            &&& views(outcome.attempted_models@) == views(attempted_models@)
        },
    }
}

fn shown_summary(result: &AiRankResult) -> (r: Option<String>)
    ensures
        opt_view(r) == summary_shown(result.summary@),
{
    if result.summary.as_str().is_empty() {
        None
    } else {
        Some(result.summary.clone())
    }
}

/// Settles a request for an enhancement.
pub fn settle_enhancement(event: EnhanceEvent) -> (r: (AiEnhanceOutcome, Option<AiRankResult>))
    ensures
        settles(r.0, r.1, event),
{
    match event {
        EnhanceEvent::NoCandidates => (
            AiEnhanceOutcome::fallback("no valid candidates for AI analysis"),
            None,
        ),
        EnhanceEvent::NotAdmitted { reason } => (
            AiEnhanceOutcome::fallback(reason.as_str()),
            None,
        ),
        EnhanceEvent::Refused { reason } => (AiEnhanceOutcome::fallback(reason.as_str()), None),
        EnhanceEvent::Failed { error, general } => {
            let reason = safe_ai_failure_reason(&error, general.as_str());
            (AiEnhanceOutcome::fallback(reason.as_str()), None)
        },
        EnhanceEvent::CacheHit { result, model, route_version } => (
            AiEnhanceOutcome {
                status: AiStatus::Cached,
                fallback_reason: None,
                summary: shown_summary(&result),
                summary_evidence_ids: clone_strings(&result.summary_evidence_ids),
                model: Some(model),
                protocol: None,
                route_version: Some(route_version),
                used_model_fallback: false,
                attempted_models: Vec::new(),
            },
            Some(result),
        ),
        EnhanceEvent::Accepted {
            result,
            notice,
            model,
            protocol,
            route_version,
            used_model_fallback,
            attempted_models,
        } => (
            AiEnhanceOutcome {
                status: AiStatus::Used,
                fallback_reason: notice,
                summary: shown_summary(&result),
                summary_evidence_ids: clone_strings(&result.summary_evidence_ids),
                model: Some(model),
                protocol,
                route_version: Some(route_version),
                used_model_fallback,
                attempted_models,
            },
            Some(result),
        ),
    }
}

/// Nothing of a failed attempt reaches the candidates, and nothing reaches them unseen: a
/// result is applied exactly when the outcome says that the model was used.
pub proof fn lemma_failures_keep_deterministic_items(
    outcome: AiEnhanceOutcome,
    applied: Option<AiRankResult>,
    event: EnhanceEvent,
)
    requires
        settles(outcome, applied, event),
    ensures
        applied is Some <==> outcome.status is Used || outcome.status is Cached,
        applied is None ==> outcome.summary is None && outcome.model is None,
{
}

/// Whether an enhancement is asked for at all. With nothing to enhance, or nobody to ask,
/// the outcome is settled at once. `disabled_reason` is what a client is told when no model
/// is available.
pub fn enhancement_start(items: usize, online_available: bool, disabled_reason: &str) -> (r: Option<
    AiEnhanceOutcome,
>)
    ensures
        items > 0 && online_available ==> r is None,
        items > 0 && !online_available ==> (r matches Some(o) && o.says(
            AiStatus::Fallback,
            Some(disabled_reason@),
        )),
        items == 0 && online_available ==> (r matches Some(o) && o.says(AiStatus::Used, None)),
        items == 0 && !online_available ==> (r matches Some(o) && o.says(
            AiStatus::Disabled,
            Some(disabled_reason@),
        )),
{
    if items == 0 {
        if online_available {
            return Some(AiEnhanceOutcome::bare(AiStatus::Used, None));
        }
        return Some(AiEnhanceOutcome::disabled(disabled_reason));
    }
    if !online_available {
        return Some(AiEnhanceOutcome::fallback(disabled_reason));
    }
    None
}

/// The outcome of a request that does not wait for the model.
pub fn progressive_outcome(online_available: bool, disabled_reason: &str) -> (r: AiEnhanceOutcome)
    ensures
        online_available ==> r.says(
            AiStatus::Pending,
            Some("base ranking returned; AI enhancement is pending"@),
        ),
        !online_available ==> r.says(AiStatus::Fallback, Some(disabled_reason@)),
{
    if online_available {
        AiEnhanceOutcome::pending("base ranking returned; AI enhancement is pending")
    } else {
        AiEnhanceOutcome::fallback(disabled_reason)
    }
}

// ---------------------------------------------------------------------------
// Admission
// ---------------------------------------------------------------------------

#[derive(Debug, Clone, Copy, PartialEq, Eq, Structural)]
pub enum AiAdmissionError {
    BudgetExhausted,
    TemporarilyUnavailable,
}

/// `exhausted` is what a client is told when its budget is used up.
pub fn ai_admission_failure_reason(error: AiAdmissionError, exhausted: &str) -> (r: String)
    ensures
        error is BudgetExhausted ==> r@ == exhausted@,
        error is TemporarilyUnavailable ==> r@
            == "AI account quota is temporarily unavailable; deterministic results are shown"@,
{
    match error {
        AiAdmissionError::BudgetExhausted => exhausted.to_owned(),
        AiAdmissionError::TemporarilyUnavailable => {
            "AI account quota is temporarily unavailable; deterministic results are shown".to_owned()
        },
    }
}

/// What has to be done next before a model may be called.
#[derive(Debug, Clone, Copy, PartialEq, Eq, Structural)]
pub enum AdmissionStep {
    /// Take one of the account's concurrent calls.
    TakePermit,
    /// Count the call against the account's minute.
    CountMinute,
    /// Charge one unit of the account's day.
    ChargeDay,
    Granted,
    Denied(AiAdmissionError),
}

/// What came of a step.
#[derive(Debug, Clone, Copy, PartialEq, Eq, Structural)]
pub enum AdmissionEvent {
    /// It went through.
    Passed,
    /// There was nothing left.
    Exhausted,
    /// It could not be found out.
    Unavailable,
}

/// The step after `step`. Each later step is taken only when the earlier ones went through,
/// so that a refused call is charged to nobody.
pub open spec fn admission_after(
    step: AdmissionStep,
    event: AdmissionEvent,
    charge_day: bool,
) -> AdmissionStep {
    match step {
        AdmissionStep::TakePermit => if event is Passed {
            AdmissionStep::CountMinute
        } else {
            AdmissionStep::Denied(AiAdmissionError::BudgetExhausted)
        },
        AdmissionStep::CountMinute => if !(event is Passed) {
            AdmissionStep::Denied(AiAdmissionError::BudgetExhausted)
        } else if charge_day {
            AdmissionStep::ChargeDay
        } else {
            AdmissionStep::Granted
        },
        AdmissionStep::ChargeDay => match event {
            AdmissionEvent::Passed => AdmissionStep::Granted,
            AdmissionEvent::Exhausted => AdmissionStep::Denied(AiAdmissionError::BudgetExhausted),
            AdmissionEvent::Unavailable => AdmissionStep::Denied(
                AiAdmissionError::TemporarilyUnavailable,
            ),
        },
        done => done,
    }
}

pub fn next_admission_step(step: AdmissionStep, event: AdmissionEvent, charge_day: bool) -> (r:
    AdmissionStep)
    ensures
        r == admission_after(step, event, charge_day),
{
    match step {
        AdmissionStep::TakePermit => match event {
            AdmissionEvent::Passed => AdmissionStep::CountMinute,
            _ => AdmissionStep::Denied(AiAdmissionError::BudgetExhausted),
        },
        AdmissionStep::CountMinute => match event {
            AdmissionEvent::Passed => {
                if charge_day {
                    AdmissionStep::ChargeDay
                } else {
                    AdmissionStep::Granted
                }
            },
            _ => AdmissionStep::Denied(AiAdmissionError::BudgetExhausted),
        },
        AdmissionStep::ChargeDay => match event {
            AdmissionEvent::Passed => AdmissionStep::Granted,
            AdmissionEvent::Exhausted => AdmissionStep::Denied(AiAdmissionError::BudgetExhausted),
            AdmissionEvent::Unavailable => AdmissionStep::Denied(
                AiAdmissionError::TemporarilyUnavailable,
            ),
        },
        done => done,
    }
}

/// A call on the service's own account is granted only when all three steps went through,
/// the daily charge last: each granted call costs one unit of the day.
pub proof fn lemma_granted_call_was_charged(
    permit: AdmissionEvent,
    minute: AdmissionEvent,
    day: AdmissionEvent,
)
    ensures
        ({
            let second = admission_after(AdmissionStep::TakePermit, permit, true);
            let third = admission_after(second, minute, true);
            let end = admission_after(third, day, true);
            &&& end is Granted <==> permit is Passed && minute is Passed && day is Passed
            &&& third is ChargeDay <==> permit is Passed && minute is Passed
            &&& !(third is Granted)
        }),
{
}

}
