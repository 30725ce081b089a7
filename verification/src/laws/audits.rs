//! What an audit of a ranking finds.

use vstd::prelude::*;

use crate::dbtool::audit::{
    summarize_recommendation_indices, visible_indices, AuditRow, IndexEligibility,
    RecommendationIndexAudit,
};
use crate::dbtool::audit_diversity::{
    cited_before, count_text, inversions_before, inversions_of, missing_from, modes_before,
    most_frequent, summarize_diversity, summarize_evidence, unresolved, DiversityAudit,
    EvidenceAudit,
};
use crate::dbtool::audit_gates::{evaluate_section_gates, gate_status_str, GateStatus, QualityGate};
use crate::dbtool::audit_report::{
    audit_day, cutoff_days, gate_count, parse_options, ranked_before, read_options,
    resolvable_evidence_ids, run_funnel, strict_verdict, summarize_quality_gates,
    total_with_status, with_status, AuditOptions, CandidateFunnel, FunnelFacts, OptionsView,
    ProfileFacts, QualityGateSummary, SectionAudit, StoredFeature,
};
use crate::dbtool::audit_scores::{clamped_before, summarize_scores, ScoreAudit};
use crate::dbtool::golden::distinct;
use crate::dbtool::tally::{
    count_in, distinct_before, groups_before, largest_before, tally, tied_before, Tally,
};
use crate::numbers::decimal;
use crate::score::Score;
use crate::server::intent::ModeFamily;
use crate::text::{opt_view, views};

verus! {

// ---------------------------------------------------------------------------
// Cited evidence
// ---------------------------------------------------------------------------

/// Some row cites the identifier.
pub open spec fn is_cited(rows: Seq<AuditRow>, id: Seq<char>) -> bool {
    exists|i: int, j: int| #[trigger] cites(rows, i, j, id)
}

pub open spec fn cites(rows: Seq<AuditRow>, i: int, j: int, id: Seq<char>) -> bool {
    0 <= i < rows.len() && 0 <= j < rows[i].evidence_ids@.len() && rows[i].evidence_ids@[j]@ == id
}

/// The identifier is among those that resolve.
pub open spec fn resolves(available: Seq<String>, id: Seq<char>) -> bool {
    exists|k: int| 0 <= k < available.len() && (#[trigger] available[k])@ == id
}

proof fn lemma_cited(rows: Seq<AuditRow>, n: int, id: Seq<char>)
    requires
        0 <= n <= rows.len(),
    ensures
        cited_before(rows, n).contains(id) <==> exists|i: int, j: int|
            i < n && #[trigger] cites(rows, i, j, id),
    decreases n,
{
    if n > 0 {
        lemma_cited(rows, n - 1, id);
        let front = cited_before(rows, n - 1);
        let own = views(rows[n - 1].evidence_ids@);
        let all = cited_before(rows, n);
        assert(all =~= front + own);
        if all.contains(id) {
            let k = choose|k: int| 0 <= k < all.len() && all[k] == id;
            if k < front.len() {
                assert(front[k] == id);
            } else {
                assert(own[k - front.len()] == id);
                assert(cites(rows, n - 1, k - front.len(), id));
            }
        }
        if exists|i: int, j: int| i < n && #[trigger] cites(rows, i, j, id) {
            let (i, j) = choose|i: int, j: int| i < n && #[trigger] cites(rows, i, j, id);
            if i == n - 1 {
                assert(own[j] == id);
                assert(all[front.len() + j] == id);
            } else {
                assert(front.contains(id));
                let k = choose|k: int| 0 <= k < front.len() && front[k] == id;
                assert(all[k] == id);
            }
        }
    }
}

proof fn lemma_missing(texts: Seq<Seq<char>>, available: Seq<Seq<char>>, id: Seq<char>)
    ensures
        missing_from(texts, available).contains(id) <==> texts.contains(id) && !available.contains(
            id,
        ),
    decreases texts.len(),
{
    if texts.len() > 0 {
        let front = texts.drop_last();
        lemma_missing(front, available, id);
        let kept = missing_from(front, available);
        let all = missing_from(texts, available);
        assert(texts =~= front.push(texts.last()));
        if texts.contains(id) {
            let k = choose|k: int| 0 <= k < texts.len() && texts[k] == id;
            if k < front.len() {
                assert(front[k] == id);
            }
        }
        if front.contains(id) {
            let k = choose|k: int| 0 <= k < front.len() && front[k] == id;
            assert(texts[k] == id);
        }
        if kept.contains(id) {
            let k = choose|k: int| 0 <= k < kept.len() && kept[k] == id;
            assert(all[k] == id);
        }
        if !available.contains(texts.last()) {
            assert(all[kept.len() as int] == texts.last());
            assert(texts[texts.len() - 1] == texts.last());
            if all.contains(id) {
                let k = choose|k: int| 0 <= k < all.len() && all[k] == id;
                if k < kept.len() {
                    assert(kept[k] == id);
                }
            }
        }
    }
}

proof fn lemma_resolves(available: Seq<String>, id: Seq<char>)
    ensures
        views(available).contains(id) <==> resolves(available, id),
{
    if views(available).contains(id) {
        let k = choose|k: int| 0 <= k < views(available).len() && views(available)[k] == id;
        assert(available[k]@ == id);
    }
    if resolves(available, id) {
        let k = choose|k: int| 0 <= k < available.len() && (#[trigger] available[k])@ == id;
        assert(views(available)[k] == id);
    }
}

proof fn lemma_unresolved(rows: Seq<AuditRow>, available: Seq<String>, id: Seq<char>)
    ensures
        unresolved(cited_before(rows, rows.len() as int), views(available)).contains(id)
            <==> is_cited(rows, id) && !resolves(available, id),
{
    let cited = cited_before(rows, rows.len() as int);
    lemma_cited(rows, rows.len() as int, id);
    lemma_missing(cited, views(available), id);
    lemma_resolves(available, id);
    crate::dbtool::sorted::lemma_sorted_texts(missing_from(cited, views(available)));
    if is_cited(rows, id) {
        let (i, j) = choose|i: int, j: int| #[trigger] cites(rows, i, j, id);
        assert(i < rows.len() && cites(rows, i, j, id));
    }
}

proof fn lemma_distinct_empty(texts: Seq<Seq<char>>)
    ensures
        distinct(texts).len() == 0 <==> texts.len() == 0,
    decreases texts.len(),
{
    if texts.len() > 0 {
        lemma_distinct_empty(texts.drop_last());
    }
}

/// Evidence passes its gate exactly where something is cited and everything cited resolves; it
/// fails wherever something cited does not resolve; where nothing is cited it does not apply.
pub proof fn law_evidence_gate_wants_all_to_resolve(
    rows: Vec<AuditRow>,
    available: Vec<String>,
    scores: ScoreAudit,
    diversity: DiversityAudit,
    evidence: EvidenceAudit,
    r: Vec<QualityGate>,
)
    requires
        call_ensures(summarize_evidence, (&rows, &available), evidence),
        call_ensures(evaluate_section_gates, (&scores, &diversity, &evidence), r),
    ensures
        r@.len() == 7,
        r@[6].name@ == "evidence_id_resolvability"@,
        (exists|id: Seq<char>| is_cited(rows@, id) && !resolves(available@, id))
            <==> r@[6].status is Fail,
        (forall|id: Seq<char>| !is_cited(rows@, id)) <==> r@[6].status is NotApplicable,
        (exists|id: Seq<char>| is_cited(rows@, id)) && (forall|id: Seq<char>|
            is_cited(rows@, id) ==> resolves(available@, id)) <==> r@[6].status is Pass,
{
    let cited = cited_before(rows@, rows@.len() as int);
    let list = unresolved(cited, views(available@));
    lemma_distinct_empty(cited);
    if list.len() > 0 {
        lemma_unresolved(rows@, available@, list[0]);
        assert(list.contains(list[0]));
        assert(is_cited(rows@, list[0]) && !resolves(available@, list[0]));
    }
    if cited.len() > 0 {
        lemma_cited(rows@, rows@.len() as int, cited[0]);
        assert(cited.contains(cited[0]));
        assert(is_cited(rows@, cited[0]));
    }
    assert forall|id: Seq<char>| is_cited(rows@, id) implies cited.len() > 0 by {
        let (i, j) = choose|i: int, j: int| #[trigger] cites(rows@, i, j, id);
        assert(i < rows@.len() && cites(rows@, i, j, id));
        lemma_cited(rows@, rows@.len() as int, id);
        assert(cited.contains(id));
    }
    assert forall|id: Seq<char>| is_cited(rows@, id) && !resolves(available@, id) implies list.len()
        > 0 by {
        lemma_unresolved(rows@, available@, id);
        assert(list.contains(id));
    }
    if exists|id: Seq<char>| is_cited(rows@, id) && !resolves(available@, id) {
        let id = choose|id: Seq<char>| is_cited(rows@, id) && !resolves(available@, id);
        assert(is_cited(rows@, id));
    }
}

/// The list of what does not resolve names identifiers that some row cites and that do not
/// resolve, each once and in order; and names one wherever there is one.
pub proof fn law_unresolved_list_is_honest(
    rows: Vec<AuditRow>,
    available: Vec<String>,
    r: EvidenceAudit,
    k: int,
)
    requires
        call_ensures(summarize_evidence, (&rows, &available), r),
        0 <= k < r.unresolved_ids@.len(),
    ensures
        is_cited(rows@, r.unresolved_ids@[k]@),
        !resolves(available@, r.unresolved_ids@[k]@),
        r.unresolved_ids@.len() <= 20,
        r.unresolved_count == r.unresolved_ids@.len() + r.unresolved_ids_truncated,
        r.resolvable_count + r.unresolved_count == r.unique_referenced_count,
        r.unique_referenced_count <= r.referenced_count,
{
    let cited = cited_before(rows@, rows@.len() as int);
    let list = unresolved(cited, views(available@));
    let shown = views(r.unresolved_ids@);
    assert(shown.len() == r.unresolved_ids@.len());
    assert(shown[k] == r.unresolved_ids@[k]@);
    assert(shown[k] == list[k]);
    assert(list.contains(list[k]));
    lemma_unresolved(rows@, available@, list[k]);
    lemma_distinct_short(cited);
}

proof fn lemma_distinct_short(texts: Seq<Seq<char>>)
    ensures
        distinct(texts).len() <= texts.len(),
    decreases texts.len(),
{
    if texts.len() > 0 {
        lemma_distinct_short(texts.drop_last());
    }
}

// ---------------------------------------------------------------------------
// The other gates
// ---------------------------------------------------------------------------

/// A gate that applies passes or fails by its condition; one that does not says so, and shows no
/// figure.
pub open spec fn decides(gate: QualityGate, applies: bool, condition: bool) -> bool {
    &&& gate.status is Pass <==> applies && condition
    &&& gate.status is Fail <==> applies && !condition
    &&& gate.status is NotApplicable <==> !applies
    &&& gate.observed is Some <==> applies
}

/// The gates in their order, each with its threshold.
pub proof fn law_gates_hold_their_thresholds(
    scores: ScoreAudit,
    diversity: DiversityAudit,
    evidence: EvidenceAudit,
    r: Vec<QualityGate>,
)
    requires
        call_ensures(evaluate_section_gates, (&scores, &diversity, &evidence), r),
    ensures
        r@.len() == 7,
        ({
            let top = scores.quality_top20_recommendation_index;
            let full = top.top_count == 20;
            let varied = scores.top20_distinct_visible_evidence_vectors >= 12;
            &&& r@[0].name@ == "clamp_rate"@
            &&& decides(
                r@[0],
                scores.recommendation_index.pool_size != 0,
                100 * scores.clamp_count <= scores.count,
            )
            &&& r@[1].name@ == "top20_distinct_recommendation_indices"@
            &&& decides(
                r@[1],
                full && varied && top.top_visible_count >= 12,
                top.top_distinct_indices >= 12,
            )
            &&& r@[2].name@ == "top20_largest_recommendation_index_bucket_share"@
            &&& decides(
                r@[2],
                full && varied && top.top_visible_count >= 12,
                5 * top.top_largest_bucket <= top.top_visible_count,
            )
            &&& r@[3].name@ == "top20_cross_vector_exact_tie_size"@
            &&& decides(
                r@[3],
                full && varied,
                scores.top20_largest_cross_vector_exact_tie <= 2,
            )
            &&& r@[4].name@ == "top20_single_mode_share"@
            &&& decides(
                r@[4],
                full && diversity.pool_known_mode_families >= 3,
                10 * diversity.top_largest_mode_count <= 6 * diversity.top_count,
            )
            &&& r@[5].name@ == "mmr_inversion_slot_reason"@
            &&& decides(
                r@[5],
                top.top_visible_count >= 2,
                diversity.mmr_inversion_pairs_missing_reason == 0,
            )
            &&& r@[6].name@ == "evidence_id_resolvability"@
            &&& decides(
                r@[6],
                evidence.unique_referenced_count != 0,
                evidence.unresolved_count == 0,
            )
        }),
{
}

/// The status goes by its name.
pub proof fn law_statuses_have_names(status: GateStatus, r: &'static str)
    requires
        call_ensures(gate_status_str, (status,), r),
    ensures
        status is Pass ==> r@ == "pass"@,
        status is Fail ==> r@ == "fail"@,
        status is NotApplicable ==> r@ == "not_applicable"@,
{
}

// ---------------------------------------------------------------------------
// The verdict
// ---------------------------------------------------------------------------

/// Some gate of some section has failed.
pub open spec fn some_gate_failed(sections: Seq<SectionAudit>) -> bool {
    exists|i: int, j: int| #[trigger] gate_failed(sections, i, j)
}

pub open spec fn gate_failed(sections: Seq<SectionAudit>, i: int, j: int) -> bool {
    0 <= i < sections.len() && 0 <= j < sections[i].quality_gates@.len()
        && sections[i].quality_gates@[j].status is Fail
}

proof fn lemma_with_status(gates: Seq<QualityGate>, status: GateStatus, n: int)
    requires
        0 <= n <= gates.len(),
    ensures
        with_status(gates, status, n) > 0 <==> exists|j: int|
            0 <= j < n && (#[trigger] gates[j]).status == status,
    decreases n,
{
    if n > 0 {
        lemma_with_status(gates, status, n - 1);
        if gates[n - 1].status == status {
            assert(0 <= n - 1 < n && gates[n - 1].status == status);
        }
    }
}

proof fn lemma_total_failed(sections: Seq<SectionAudit>, n: int)
    requires
        0 <= n <= sections.len(),
    ensures
        total_with_status(sections, GateStatus::Fail, n) > 0 <==> exists|i: int, j: int|
            i < n && #[trigger] gate_failed(sections, i, j),
    decreases n,
{
    if n > 0 {
        lemma_total_failed(sections, n - 1);
        let gates = sections[n - 1].quality_gates@;
        lemma_with_status(gates, GateStatus::Fail, gates.len() as int);
        if exists|j: int| 0 <= j < gates.len() && (#[trigger] gates[j]).status == GateStatus::Fail {
            let j = choose|j: int|
                0 <= j < gates.len() && (#[trigger] gates[j]).status == GateStatus::Fail;
            assert(gate_failed(sections, n - 1, j));
        }
        if exists|i: int, j: int| i < n && #[trigger] gate_failed(sections, i, j) {
            let (i, j) = choose|i: int, j: int| i < n && #[trigger] gate_failed(sections, i, j);
            if i == n - 1 {
                assert(gates[j].status == GateStatus::Fail);
            }
        }
    }
}

/// The summary is compatible with a strict run exactly where no gate of any section failed, and
/// a strict run ends in an error exactly where one did; a run that is not strict never does.
pub proof fn law_strict_run_fails_with_a_gate(
    sections: Vec<SectionAudit>,
    strict: bool,
    summary: QualityGateSummary,
    r: Result<(), String>,
)
    requires
        gate_count(sections@, sections@.len() as int) <= usize::MAX,
        call_ensures(summarize_quality_gates, (&sections,), summary),
        call_ensures(strict_verdict, (strict, &summary), r),
    ensures
        summary.strict_compatible <==> !some_gate_failed(sections@),
        r is Err <==> strict && some_gate_failed(sections@),
        summary.evaluated == summary.passed + summary.failed,
        summary.failures@.len() == summary.failed,
{
    lemma_total_failed(sections@, sections@.len() as int);
    if some_gate_failed(sections@) {
        let (i, j) = choose|i: int, j: int| #[trigger] gate_failed(sections@, i, j);
        assert(i < sections@.len() && gate_failed(sections@, i, j));
    }
}

// ---------------------------------------------------------------------------
// The funnel
// ---------------------------------------------------------------------------

/// A game reaches the ranking where the section takes it, nobody has turned it down, and it
/// passes the hard filter.
pub open spec fn is_ranked(facts: FunnelFacts) -> bool {
    &&& facts.section_matches
    &&& facts.passes_hard_filter
    &&& opt_view(facts.feedback) != Some("not_interested"@)
    &&& opt_view(facts.feedback) != Some("party_size_mismatch"@)
}

proof fn lemma_ranked(rows: Seq<FunnelFacts>, n: int)
    requires
        0 <= n <= rows.len() <= usize::MAX,
    ensures
        forall|i: int|
            0 <= i < n ==> (ranked_before(rows, n).contains(#[trigger] (i as usize)) <==> is_ranked(
                rows[i],
            )),
        forall|k: int|
            0 <= k < ranked_before(rows, n).len() ==> (#[trigger] ranked_before(rows, n)[k]) < n,
        forall|j: int, k: int|
            0 <= j < k < ranked_before(rows, n).len() ==> (#[trigger] ranked_before(rows, n)[j]) < (
            #[trigger] ranked_before(rows, n)[k]),
    decreases n,
{
    if n > 0 {
        lemma_ranked(rows, n - 1);
        let front = ranked_before(rows, n - 1);
        let all = ranked_before(rows, n);
        assert forall|i: int| 0 <= i < n implies (all.contains(#[trigger] (i as usize))
            <==> is_ranked(rows[i])) by {
            if front.contains(i as usize) {
                let k = choose|k: int| 0 <= k < front.len() && front[k] == i as usize;
                assert(all[k] == i as usize);
            }
            if i == n - 1 && is_ranked(rows[i]) {
                assert(all[all.len() - 1] == i as usize);
            }
            if all.contains(i as usize) && i < n - 1 {
                let k = choose|k: int| 0 <= k < all.len() && all[k] == i as usize;
                assert(front[k] == i as usize);
            }
        }
    }
}

/// Exactly the games that pass every stage are ranked, in the order in which they came, and
/// each stage lets through no more than the one before.
pub proof fn law_funnel_ranks_what_passes(
    rows: Vec<FunnelFacts>,
    r: (CandidateFunnel, Vec<usize>),
    i: int,
)
    requires
        call_ensures(run_funnel, (&rows,), r),
        0 <= i < rows@.len() <= usize::MAX,
    ensures
        r.1@.contains(i as usize) <==> is_ranked(rows@[i]),
        forall|j: int, k: int|
            0 <= j < k < r.1@.len() ==> (#[trigger] r.1@[j]) < (#[trigger] r.1@[k]),
        r.0.queried == rows@.len(),
        r.0.hard_filter_eligible <= r.0.feedback_eligible <= r.0.section_eligible <= r.0.queried,
        r.0.hard_filter_eligible == r.1@.len(),
{
    lemma_ranked(rows@, rows@.len() as int);
    lemma_ranked_count(rows@, rows@.len() as int);
    let x = i as usize;
    assert(r.1@.contains(x) <==> is_ranked(rows@[i]));
}

proof fn lemma_ranked_count(rows: Seq<FunnelFacts>, n: int)
    requires
        0 <= n <= rows.len(),
    ensures
        ranked_before(rows, n).len() == crate::dbtool::audit_report::funnel_before(rows, n).2,
    decreases n,
{
    if n > 0 {
        lemma_ranked_count(rows, n - 1);
    }
}

// ---------------------------------------------------------------------------
// Tallies
// ---------------------------------------------------------------------------

/// How often a value occurs.
pub open spec fn times(values: Seq<i64>, value: i64) -> nat {
    values.filter(|v: i64| v == value).len()
}

proof fn lemma_times(values: Seq<i64>, value: i64)
    ensures
        count_in(values, value) == times(values, value),
    decreases values.len(),
{
    reveal(Seq::filter);
    if values.len() > 0 {
        lemma_times(values.drop_last(), value);
    }
}

proof fn lemma_distinct_values(values: Seq<i64>, n: int)
    requires
        0 <= n <= values.len(),
    ensures
        distinct_before(values, n) == values.take(n).to_set().len(),
    decreases n,
{
    if n == 0 {
        assert(values.take(0).to_set() =~= Set::<i64>::empty());
    } else {
        lemma_distinct_values(values, n - 1);
        let front = values.take(n - 1);
        let all = values.take(n);
        vstd::seq_lib::seq_to_set_is_finite(front);
        assert(all =~= front.push(values[n - 1]));
        assert(all.to_set() =~= front.to_set().insert(values[n - 1])) by {
            assert forall|t: i64| all.to_set().contains(t) <==> front.to_set().insert(
                values[n - 1],
            ).contains(t) by {
                if front.to_set().contains(t) {
                    let k = choose|k: int| 0 <= k < front.len() && front[k] == t;
                    assert(all[k] == t);
                }
                if t == values[n - 1] {
                    assert(all[n - 1] == t);
                }
            }
        }
        if front.to_set().contains(values[n - 1]) {
            let k = choose|k: int| 0 <= k < front.len() && front[k] == values[n - 1];
            assert(values[k] == values[n - 1]);
            assert(!crate::dbtool::tally::is_first(values, n - 1));
        } else {
            assert forall|j: int| 0 <= j < n - 1 implies #[trigger] values[j] != values[n - 1] by {
                assert(front[j] == values[j]);
                if values[j] == values[n - 1] {
                    assert(front.contains(values[n - 1]));
                }
            }
        }
    }
}

proof fn lemma_largest(values: Seq<i64>, n: int)
    requires
        0 <= n <= values.len(),
    ensures
        forall|i: int|
            0 <= i < n ==> count_in(values, #[trigger] values[i]) <= largest_before(values, n),
        n > 0 ==> exists|i: int|
            0 <= i < n && count_in(values, #[trigger] values[i]) == largest_before(values, n),
        n == 0 ==> largest_before(values, n) == 0,
    decreases n,
{
    if n > 0 {
        lemma_largest(values, n - 1);
        if largest_before(values, n) == count_in(values, values[n - 1]) {
            assert(count_in(values, values[n - 1]) == largest_before(values, n));
        } else {
            let i = choose|i: int|
                0 <= i < n - 1 && count_in(values, #[trigger] values[i]) == largest_before(
                    values,
                    n - 1,
                );
            assert(count_in(values, values[i]) == largest_before(values, n));
        }
    }
}

/// A tally counts the different values, and the largest count is one that a value has and that
/// no value exceeds.
pub proof fn law_tally_counts(values: Vec<i64>, r: Tally)
    requires
        call_ensures(tally, (&values,), r),
    ensures
        r.distinct == values@.to_set().len(),
        forall|i: int| 0 <= i < values@.len() ==> times(values@, #[trigger] values@[i]) <= r.largest,
        values@.len() > 0 ==> exists|i: int|
            0 <= i < values@.len() && times(values@, #[trigger] values@[i]) == r.largest,
        values@.len() == 0 ==> r.largest == 0,
        r.tied_items == 0 <==> r.tie_groups == 0,
        r.tied_items == 0 <==> r.distinct == values@.len(),
{
    let n = values@.len() as int;
    lemma_distinct_values(values@, n);
    assert(values@.take(n) =~= values@);
    lemma_largest(values@, n);
    assert forall|i: int| 0 <= i < n implies times(values@, #[trigger] values@[i]) == count_in(
        values@,
        values@[i],
    ) by {
        lemma_times(values@, values@[i]);
    }
    if n > 0 {
        let i = choose|i: int|
            0 <= i < n && count_in(values@, #[trigger] values@[i]) == largest_before(values@, n);
        assert(times(values@, values@[i]) == r.largest);
    }
    lemma_tied(values@, n);
}

proof fn lemma_count_at(values: Seq<i64>, i: int)
    requires
        0 <= i < values.len(),
    ensures
        count_in(values, values[i]) >= 1,
    decreases values.len(),
{
    if i < values.len() - 1 {
        assert(values.drop_last()[i] == values[i]);
        lemma_count_at(values.drop_last(), i);
    }
}

proof fn lemma_count_two(values: Seq<i64>, i: int, j: int)
    requires
        0 <= i < j < values.len(),
        values[i] == values[j],
    ensures
        count_in(values, values[i]) >= 2,
    decreases values.len(),
{
    let front = values.drop_last();
    assert(front[i] == values[i]);
    if j < values.len() - 1 {
        assert(front[j] == values[j]);
        lemma_count_two(front, i, j);
    } else {
        lemma_count_at(front, i);
    }
}

proof fn lemma_count_once(values: Seq<i64>, v: i64)
    requires
        forall|i: int, j: int| 0 <= i < j < values.len() ==> values[i] != values[j],
    ensures
        count_in(values, v) <= 1,
        count_in(values, v) == 1 ==> values.contains(v),
    decreases values.len(),
{
    if values.len() > 0 {
        let front = values.drop_last();
        assert forall|i: int, j: int| 0 <= i < j < front.len() implies front[i] != front[j] by {
            assert(values[i] != values[j]);
        }
        lemma_count_once(front, v);
        if values.last() == v {
            assert(values[values.len() - 1] == v);
            if front.contains(v) {
                let k = choose|k: int| 0 <= k < front.len() && front[k] == v;
                assert(values[k] == v);
            }
        }
        if front.contains(v) {
            let k = choose|k: int| 0 <= k < front.len() && front[k] == v;
            assert(values[k] == v);
        }
    }
}

proof fn lemma_no_ties(values: Seq<i64>, n: int)
    requires
        0 <= n <= values.len(),
        forall|i: int, j: int| 0 <= i < j < values.len() ==> values[i] != values[j],
    ensures
        tied_before(values, n) == 0,
        groups_before(values, n) == 0,
        distinct_before(values, n) == n,
    decreases n,
{
    if n > 0 {
        lemma_no_ties(values, n - 1);
        lemma_count_once(values, values[n - 1]);
    }
}

proof fn lemma_some_tie(values: Seq<i64>, n: int, i: int, j: int)
    requires
        0 <= i < j < n <= values.len(),
        values[i] == values[j],
        forall|k: int| 0 <= k < i ==> #[trigger] values[k] != values[i],
    ensures
        tied_before(values, n) > 0,
        groups_before(values, n) > 0,
        distinct_before(values, n) < n,
    decreases n,
{
    lemma_count_two(values, i, j);
    lemma_group_at(values, i + 1, i);
    lemma_group_grows(values, i + 1, n);
    if j < n - 1 {
        lemma_some_tie(values, n - 1, i, j);
    } else {
        lemma_distinct_short_values(values, n - 1);
        assert(!crate::dbtool::tally::is_first(values, n - 1));
    }
}

proof fn lemma_group_at(values: Seq<i64>, n: int, i: int)
    requires
        n == i + 1,
        0 <= i < values.len(),
        count_in(values, values[i]) >= 2,
        forall|k: int| 0 <= k < i ==> #[trigger] values[k] != values[i],
    ensures
        tied_before(values, n) > 0,
        groups_before(values, n) > 0,
{
    assert(crate::dbtool::tally::is_first(values, i));
}

proof fn lemma_group_grows(values: Seq<i64>, m: int, n: int)
    requires
        0 <= m <= n,
    ensures
        tied_before(values, m) <= tied_before(values, n),
        groups_before(values, m) <= groups_before(values, n),
    decreases n,
{
    if m < n {
        lemma_group_grows(values, m, n - 1);
    }
}

proof fn lemma_distinct_short_values(values: Seq<i64>, n: int)
    requires
        0 <= n,
    ensures
        distinct_before(values, n) <= n,
    decreases n,
{
    if n > 0 {
        lemma_distinct_short_values(values, n - 1);
    }
}

proof fn lemma_tied(values: Seq<i64>, n: int)
    requires
        n == values.len(),
    ensures
        tied_before(values, n) == 0 <==> groups_before(values, n) == 0,
        tied_before(values, n) == 0 <==> distinct_before(values, n) == n,
{
    if forall|i: int, j: int| 0 <= i < j < values.len() ==> values[i] != values[j] {
        lemma_no_ties(values, n);
    } else {
        let (i, j) = choose|i: int, j: int|
            0 <= i < j < values.len() && values[i] == values[j];
        let f = lemma_first_of(values, i);
        if f < j {
            lemma_some_tie(values, n, f, j);
        }
    }
}

proof fn lemma_first_of(values: Seq<i64>, i: int) -> (f: int)
    requires
        0 <= i < values.len(),
    ensures
        0 <= f <= i,
        values[f] == values[i],
        forall|k: int| 0 <= k < f ==> #[trigger] values[k] != values[f],
    decreases i,
{
    if exists|k: int| 0 <= k < i && values[k] == values[i] {
        let k = choose|k: int| 0 <= k < i && values[k] == values[i];
        lemma_first_of(values, k)
    } else {
        i
    }
}

// ---------------------------------------------------------------------------
// Modes and inversions
// ---------------------------------------------------------------------------

/// How many of the first `n` rows are of the mode.
pub open spec fn rows_of_mode(rows: Seq<AuditRow>, n: int, mode: Seq<char>) -> nat
    decreases n,
{
    if n <= 0 {
        0
    } else {
        rows_of_mode(rows, n - 1, mode) + if opt_view(rows[n - 1].mode) == Some(mode) {
            1nat
        } else {
            0
        }
    }
}

proof fn lemma_mode_count(rows: Seq<AuditRow>, n: int, mode: Seq<char>)
    ensures
        count_text(modes_before(rows, n), mode) == rows_of_mode(rows, n, mode),
    decreases n,
{
    if n > 0 {
        lemma_mode_count(rows, n - 1, mode);
        let front = modes_before(rows, n - 1);
        if rows[n - 1].mode is Some {
            let all = modes_before(rows, n);
            assert(all.drop_last() =~= front);
        }
    }
}

proof fn lemma_most_frequent(names: Seq<Seq<char>>, texts: Seq<Seq<char>>)
    ensures
        most_frequent(names, texts) is Some <==> names.len() > 0,
        most_frequent(names, texts) matches Some(best) ==> names.contains(best),
        forall|i: int|
            0 <= i < names.len() ==> count_text(texts, #[trigger] names[i]) <= count_text(
                texts,
                most_frequent(names, texts)->0,
            ),
    decreases names.len(),
{
    if names.len() > 0 {
        let front = names.drop_last();
        lemma_most_frequent(front, texts);
        let best = most_frequent(names, texts)->0;
        if best == names.last() {
            assert(names[names.len() - 1] == best);
        } else {
            let k = choose|k: int| 0 <= k < front.len() && front[k] == best;
            assert(names[k] == best);
        }
        assert forall|i: int| 0 <= i < names.len() implies count_text(texts, #[trigger] names[i])
            <= count_text(texts, best) by {
            if i < front.len() {
                assert(names[i] == front[i]);
            }
        }
    }
}

proof fn lemma_distinct_holds(texts: Seq<Seq<char>>, t: Seq<char>)
    ensures
        distinct(texts).contains(t) <==> texts.contains(t),
    decreases texts.len(),
{
    if texts.len() > 0 {
        let front = texts.drop_last();
        let last = texts.last();
        lemma_distinct_holds(front, t);
        let kept = distinct(front);
        let all = distinct(texts);
        if texts.contains(t) {
            let k = choose|k: int| 0 <= k < texts.len() && texts[k] == t;
            if k < front.len() {
                assert(front[k] == t);
            }
        }
        if front.contains(t) {
            let k = choose|k: int| 0 <= k < front.len() && front[k] == t;
            assert(texts[k] == t);
        }
        if kept.contains(last) {
            assert(texts[texts.len() - 1] == last);
        } else {
            assert(all[kept.len() as int] == last);
            assert(texts[texts.len() - 1] == last);
            if kept.contains(t) {
                let k = choose|k: int| 0 <= k < kept.len() && kept[k] == t;
                assert(all[k] == t);
            }
            if all.contains(t) {
                let k = choose|k: int| 0 <= k < all.len() && all[k] == t;
                if k < kept.len() {
                    assert(kept[k] == t);
                }
            }
        }
    }
}

proof fn lemma_mode_listed(rows: Seq<AuditRow>, n: int, i: int)
    requires
        0 <= i < n <= rows.len(),
        rows[i].mode is Some,
    ensures
        modes_before(rows, n).contains(rows[i].mode->0@),
    decreases n,
{
    let all = modes_before(rows, n);
    if i == n - 1 {
        assert(all[all.len() - 1] == rows[i].mode->0@);
    } else {
        lemma_mode_listed(rows, n - 1, i);
        let front = modes_before(rows, n - 1);
        let k = choose|k: int| 0 <= k < front.len() && front[k] == rows[i].mode->0@;
        assert(all[k] == rows[i].mode->0@);
    }
}

/// The largest mode is one of the first twenty rows, and no mode among them has more rows; its
/// count is that number of rows.
pub proof fn law_largest_mode_is_the_most_frequent(rows: Vec<AuditRow>, r: DiversityAudit, i: int)
    requires
        call_ensures(summarize_diversity, (&rows,), r),
        0 <= i < rows@.len(),
        i < 20,
        rows@[i].mode is Some,
    ensures
        r.top_largest_mode is Some,
        r.top_largest_mode_count == rows_of_mode(
            rows@,
            r.top_count as int,
            r.top_largest_mode->0@,
        ),
        rows_of_mode(rows@, r.top_count as int, rows@[i].mode->0@) <= r.top_largest_mode_count,
        r.top_count == if rows@.len() < 20 {
            rows@.len()
        } else {
            20
        },
{
    let m = r.top_count as int;
    let modes = modes_before(rows@, m);
    lemma_mode_listed(rows@, m, i);
    lemma_distinct_holds(modes, rows@[i].mode->0@);
    let names = distinct(modes);
    lemma_most_frequent(names, modes);
    let k = choose|k: int| 0 <= k < names.len() && names[k] == rows@[i].mode->0@;
    assert(count_text(modes, names[k]) <= count_text(modes, most_frequent(names, modes)->0));
    lemma_mode_count(rows@, m, rows@[i].mode->0@);
    lemma_mode_count(rows@, m, r.top_largest_mode->0@);
}

/// The relevance is a number between zero and one.
pub open spec fn is_plain(score: Score) -> bool {
    -1 <= score.key <= 0x3ff0_0000_0000_0000
}

proof fn lemma_clamped(rows: Seq<AuditRow>, n: int)
    requires
        0 <= n <= rows.len(),
    ensures
        clamped_before(rows, n) == rows.take(n).filter(|row: AuditRow| !is_plain(row.relevance)).len(),
    decreases n,
{
    reveal(Seq::filter);
    if n > 0 {
        lemma_clamped(rows, n - 1);
        assert(rows.take(n).drop_last() =~= rows.take(n - 1));
        assert(rows.take(n).last() == rows[n - 1]);
    }
}

/// What counts as clamped is a relevance that is no number from zero to one.
pub proof fn law_clamped_scores_leave_the_range(rows: Vec<AuditRow>, top: usize, r: ScoreAudit)
    requires
        call_ensures(summarize_scores, (&rows, top), r),
    ensures
        r.count == rows@.len(),
        r.clamp_count == rows@.filter(|row: AuditRow| !is_plain(row.relevance)).len(),
{
    lemma_clamped(rows@, rows@.len() as int);
    assert(rows@.take(rows@.len() as int) =~= rows@);
}

/// The lowest and the highest score are scores of rows, and every row's lies between them; the
/// medians lie between them too.
pub proof fn law_scores_lie_between_the_ends(rows: Vec<AuditRow>, top: usize, r: ScoreAudit, i: int)
    requires
        call_ensures(summarize_scores, (&rows, top), r),
        0 <= i < rows@.len(),
    ensures
        r.min is Some && r.max is Some && r.median_low is Some && r.median_high is Some,
        r.min->0.key <= rows@[i].relevance.key <= r.max->0.key,
        r.min->0.key <= r.median_low->0.key <= r.median_high->0.key <= r.max->0.key,
{
    let keys = crate::dbtool::audit_scores::relevance_keys(rows@);
    let by = crate::dbtool::audit_scores::KeyOrder;
    let sorted = crate::sort::stable_sorted(keys, &by);
    crate::sort::lemma_sorted_rearranges(keys, &by);
    crate::sort::lemma_sorted_in_order(keys, &by);
    keys.to_multiset_ensures();
    sorted.to_multiset_ensures();
    assert(keys[i] == rows@[i].relevance.key);
    assert(keys.contains(keys[i]));
    assert(sorted.to_multiset().count(keys[i]) > 0);
    assert(sorted.contains(keys[i]));
    let k = choose|k: int| 0 <= k < sorted.len() && sorted[k] == keys[i];
    assert(sorted.len() == keys.len());
    let n = rows@.len() as int;
    assert(0 <= (n - 1) / 2 <= n / 2 <= n - 1);
}

// ---------------------------------------------------------------------------
// Inversions and indices
// ---------------------------------------------------------------------------

proof fn lemma_explained(rows: Seq<AuditRow>, seen: Seq<Option<int>>, explained: bool, n: int)
    requires
        0 <= n <= rows.len(),
        forall|i: int|
            0 <= i < n ==> ((#[trigger] rows[i]).slot_reason is Diversity
                || rows[i].slot_reason is Explore) == explained,
    ensures
        inversions_before(rows, seen, !explained, n) == 0,
    decreases n,
{
    if n > 0 {
        lemma_explained(rows, seen, explained, n - 1);
        assert((rows[n - 1].slot_reason is Diversity || rows[n - 1].slot_reason is Explore)
            == explained);
    }
}

/// An inversion is explained exactly by the slot of the row that was put first: with every row
/// put there for diversity or to explore none is unexplained, with every row in its own place
/// none is explained.
pub proof fn law_slots_explain_inversions(rows: Vec<AuditRow>, r: DiversityAudit)
    requires
        call_ensures(summarize_diversity, (&rows,), r),
    ensures
        r.mmr_inversion_pairs_over_3_points == r.mmr_inversion_pairs_with_reason
            + r.mmr_inversion_pairs_missing_reason,
        (forall|i: int|
            0 <= i < rows@.len() ==> (#[trigger] rows@[i]).slot_reason is Diversity
                || rows@[i].slot_reason is Explore) ==> r.mmr_inversion_pairs_missing_reason == 0,
        (forall|i: int| 0 <= i < rows@.len() ==> (#[trigger] rows@[i]).slot_reason is Base)
            ==> r.mmr_inversion_pairs_with_reason == 0,
{
    let m = r.top_count as int;
    let seen = crate::dbtool::audit::shown_indices(
        crate::dbtool::audit::first_rows(rows@, crate::dbtool::audit::QUALITY_GATE_TOP),
    );
    if forall|i: int|
        0 <= i < rows@.len() ==> (#[trigger] rows@[i]).slot_reason is Diversity
            || rows@[i].slot_reason is Explore {
        lemma_explained(rows@, seen, true, m);
    }
    if forall|i: int| 0 <= i < rows@.len() ==> (#[trigger] rows@[i]).slot_reason is Base {
        lemma_explained(rows@, seen, false, m);
    }
}

proof fn lemma_one_inversion(seen: Seq<Option<int>>, i: int, j: int, upto: int)
    requires
        0 <= i < j < upto <= seen.len(),
        seen[i] is Some,
        seen[j] is Some,
        seen[j]->0 > seen[i]->0 + 3,
    ensures
        inversions_of(seen, i, upto) > 0,
    decreases upto,
{
    if j < upto - 1 {
        lemma_one_inversion(seen, i, j, upto - 1);
    }
}

proof fn lemma_no_inversion(seen: Seq<Option<int>>, i: int, upto: int)
    requires
        0 <= i < seen.len(),
        upto <= seen.len(),
        forall|j: int|
            i < j < upto && seen[i] is Some && (#[trigger] seen[j]) is Some ==> seen[j]->0
                <= seen[i]->0 + 3,
    ensures
        inversions_of(seen, i, upto) == 0,
    decreases upto,
{
    if upto > i + 1 {
        lemma_no_inversion(seen, i, upto - 1);
    }
}

proof fn lemma_some_inversion(
    rows: Seq<AuditRow>,
    seen: Seq<Option<int>>,
    n: int,
    i: int,
    explained: bool,
)
    requires
        0 <= i < n <= rows.len(),
        inversions_of(seen, i, seen.len() as int) > 0,
        (rows[i].slot_reason is Diversity || rows[i].slot_reason is Explore) == explained,
    ensures
        inversions_before(rows, seen, explained, n) > 0,
    decreases n,
{
    if i < n - 1 {
        lemma_some_inversion(rows, seen, n - 1, i, explained);
    }
}

/// A row among the first twenty that stands before one whose index is more than three points
/// higher is an inversion; it is unexplained where the row stands in its own place.
pub proof fn law_inversions_are_found(
    rows: Vec<AuditRow>,
    r: DiversityAudit,
    seen: Vec<Option<u8>>,
    i: int,
    j: int,
)
    requires
        call_ensures(summarize_diversity, (&rows,), r),
        rows@.len() <= 20,
        call_ensures(visible_indices, (&rows, rows@.len() as usize), seen),
        0 <= i < j < rows@.len(),
        seen@[i] is Some,
        seen@[j] is Some,
        seen@[j]->0 > seen@[i]->0 + 3,
    ensures
        rows@[i].slot_reason is Base ==> r.mmr_inversion_pairs_missing_reason > 0,
        !(rows@[i].slot_reason is Base) ==> r.mmr_inversion_pairs_with_reason > 0,
{
    let n = rows@.len() as int;
    assert(rows@.take(n) =~= rows@);
    let shown = crate::dbtool::audit::shown_indices(rows@);
    assert(crate::dbtool::audit::as_ints(seen@) == shown);
    assert(crate::dbtool::audit::as_ints(seen@)[i] == Some(seen@[i]->0 as int));
    assert(crate::dbtool::audit::as_ints(seen@)[j] == Some(seen@[j]->0 as int));
    lemma_one_inversion(shown, i, j, n);
    lemma_some_inversion(rows@, shown, n, i, !(rows@[i].slot_reason is Base));
}

/// An index is shown of rows that are sure by at least 0.45 and have three features, and of no
/// others.
pub proof fn law_sure_rows_show_an_index(e: IndexEligibility, r: bool)
    requires
        call_ensures(IndexEligibility::is_admitted, (&e,), r),
    ensures
        r <==> 0x3fdc_cccc_cccc_cccd <= e.data_confidence.key <= 0x7ff0_0000_0000_0000
            && e.effective_feature_count >= 3,
{
}

/// A row without an eligibility shows no index.
pub proof fn law_unknown_rows_show_no_index(
    rows: Vec<AuditRow>,
    count: usize,
    r: Vec<Option<u8>>,
    i: int,
)
    requires
        count <= rows@.len(),
        call_ensures(visible_indices, (&rows, count), r),
        0 <= i < count,
        rows@[i].eligibility is None,
    ensures
        r@.len() == count,
        r@[i] is None,
{
    let top = rows@.take(count as int);
    assert(top[i] == rows@[i]);
    assert(crate::dbtool::audit::as_ints(r@)[i] == crate::dbtool::audit::shown_indices(top)[i]);
}

/// Shown and hidden rows make up the window, and ten rows are needed for any index.
pub proof fn law_windows_are_counted(
    rows: Vec<AuditRow>,
    top: usize,
    r: RecommendationIndexAudit,
)
    requires
        call_ensures(summarize_recommendation_indices, (&rows, top), r),
    ensures
        r.pool_size == if rows@.len() < top {
            rows@.len() as int
        } else {
            top as int
        },
        r.visible_count + r.hidden_count == r.pool_size,
        r.pool_eligible <==> r.pool_size >= 10,
        r.top_visible_count == r.visible_count,
{
}

// ---------------------------------------------------------------------------
// What resolves
// ---------------------------------------------------------------------------

proof fn lemma_with_text(list: Seq<Seq<char>>, text: Seq<char>)
    ensures
        crate::dbtool::audit_report::with_text(list, text).contains(text),
        forall|t: Seq<char>|
            list.contains(t) ==> #[trigger] crate::dbtool::audit_report::with_text(
                list,
                text,
            ).contains(t),
{
    let all = crate::dbtool::audit_report::with_text(list, text);
    if !list.contains(text) {
        assert(all[list.len() as int] == text);
        assert forall|t: Seq<char>| list.contains(t) implies #[trigger] all.contains(t) by {
            let k = choose|k: int| 0 <= k < list.len() && list[k] == t;
            assert(all[k] == t);
        }
    }
}

proof fn lemma_stored(features: Seq<StoredFeature>, n: int, i: int)
    requires
        0 <= i < n <= features.len(),
    ensures
        crate::dbtool::audit_report::with_stored(features, n).contains(
            "feature:"@ + features[i].feature@ + ":"@ + decimal(features[i].app_id as nat),
        ),
    decreases n,
{
    let f = features[n - 1];
    let front = crate::dbtool::audit_report::with_stored(features, n - 1);
    lemma_with_text(
        front,
        crate::server::catalog::feature_evidence_id(f.feature@, f.app_id),
    );
    if i < n - 1 {
        lemma_stored(features, n - 1, i);
    }
}

proof fn lemma_computed(
    ids: Seq<Seq<char>>,
    app_id: u32,
    mode: Option<ModeFamily>,
    service_status: Option<Seq<char>>,
)
    ensures
        forall|t: Seq<char>|
            ids.contains(t) ==> #[trigger] crate::dbtool::audit_report::with_computed(
                ids,
                app_id,
                mode,
                service_status,
            ).contains(t),
        mode == Some(ModeFamily::MatchmadePvp) ==> crate::dbtool::audit_report::with_computed(
            ids,
            app_id,
            mode,
            service_status,
        ).contains("feature:"@ + "matchmaking_core"@ + ":"@ + decimal(app_id as nat)),
        mode == Some(ModeFamily::PublicWorld) ==> crate::dbtool::audit_report::with_computed(
            ids,
            app_id,
            mode,
            service_status,
        ).contains("feature:"@ + "public_world_dependency"@ + ":"@ + decimal(app_id as nat)),
        service_status is Some && crate::text::trimmed(service_status->0).len() > 0
            ==> crate::dbtool::audit_report::with_computed(
            ids,
            app_id,
            mode,
            service_status,
        ).contains("feature:"@ + "service_shutdown_risk"@ + ":"@ + decimal(app_id as nat)),
{
    let a = crate::server::catalog::feature_evidence_id("matchmaking_core"@, app_id);
    let b = crate::server::catalog::feature_evidence_id("public_world_dependency"@, app_id);
    let c = crate::server::catalog::feature_evidence_id("service_shutdown_risk"@, app_id);
    lemma_with_text(ids, a);
    lemma_with_text(ids, b);
    let by_mode = match mode {
        Some(ModeFamily::MatchmadePvp) => crate::dbtool::audit_report::with_text(ids, a),
        Some(ModeFamily::PublicWorld) => crate::dbtool::audit_report::with_text(ids, b),
        _ => ids,
    };
    lemma_with_text(by_mode, c);
}

proof fn lemma_profiles(ids: Seq<Seq<char>>, profiles: Seq<ProfileFacts>, n: int)
    requires
        0 <= n <= profiles.len(),
    ensures
        forall|t: Seq<char>|
            ids.contains(t) ==> #[trigger] crate::dbtool::audit_report::with_profiles(
                ids,
                profiles,
                n,
            ).contains(t),
        forall|i: int|
            0 <= i < n ==> is_profiled(
                #[trigger] profiles[i],
                crate::dbtool::audit_report::with_profiles(ids, profiles, n),
            ),
    decreases n,
{
    if n > 0 {
        lemma_profiles(ids, profiles, n - 1);
        let p = profiles[n - 1];
        let front = crate::dbtool::audit_report::with_profiles(ids, profiles, n - 1);
        lemma_computed(front, p.app_id, p.dominant_mode, opt_view(p.service_status));
        let all = crate::dbtool::audit_report::with_profiles(ids, profiles, n);
        assert forall|i: int| 0 <= i < n implies is_profiled(#[trigger] profiles[i], all) by {
            if i < n - 1 {
                assert(is_profiled(profiles[i], front));
            }
        }
    }
}

/// What a profile makes resolve is in the list.
pub open spec fn is_profiled(p: ProfileFacts, list: Seq<Seq<char>>) -> bool {
    &&& p.dominant_mode == Some(ModeFamily::MatchmadePvp) ==> list.contains(
        "feature:"@ + "matchmaking_core"@ + ":"@ + decimal(p.app_id as nat),
    )
    &&& p.dominant_mode == Some(ModeFamily::PublicWorld) ==> list.contains(
        "feature:"@ + "public_world_dependency"@ + ":"@ + decimal(p.app_id as nat),
    )
    &&& p.service_status is Some && crate::text::trimmed(p.service_status->0@).len() > 0
        ==> list.contains(
        "feature:"@ + "service_shutdown_risk"@ + ":"@ + decimal(p.app_id as nat),
    )
}

proof fn lemma_reviews(ids: Seq<Seq<char>>, reviewed: Seq<u32>, n: int)
    requires
        0 <= n <= reviewed.len(),
    ensures
        forall|t: Seq<char>|
            ids.contains(t) ==> #[trigger] crate::dbtool::audit_report::with_reviews(
                ids,
                reviewed,
                n,
            ).contains(t),
        forall|i: int|
            0 <= i < n ==> crate::dbtool::audit_report::with_reviews(ids, reviewed, n).contains(
                "review:"@ + decimal((#[trigger] reviewed[i]) as nat) + ":summary"@,
            ),
    decreases n,
{
    if n > 0 {
        lemma_reviews(ids, reviewed, n - 1);
        let front = crate::dbtool::audit_report::with_reviews(ids, reviewed, n - 1);
        lemma_with_text(front, crate::server::catalog::review_evidence_id(reviewed[n - 1]));
    }
}

/// Every stored feature resolves, every summary of reviews, the matches that a game lives on, the
/// world that it shares, and the end of its service that is known.
pub proof fn law_known_facts_resolve(
    features: Vec<StoredFeature>,
    profiles: Vec<ProfileFacts>,
    reviewed: Vec<u32>,
    r: Vec<String>,
    i: int,
)
    requires
        call_ensures(resolvable_evidence_ids, (&features, &profiles, &reviewed), r),
    ensures
        0 <= i < features@.len() ==> views(r@).contains(
            "feature:"@ + features@[i].feature@ + ":"@ + decimal(features@[i].app_id as nat),
        ),
        0 <= i < profiles@.len() ==> is_profiled(profiles@[i], views(r@)),
        0 <= i < reviewed@.len() ==> views(r@).contains(
            "review:"@ + decimal(reviewed@[i] as nat) + ":summary"@,
        ),
{
    let stored = crate::dbtool::audit_report::with_stored(features@, features@.len() as int);
    let profiled = crate::dbtool::audit_report::with_profiles(
        stored,
        profiles@,
        profiles@.len() as int,
    );
    lemma_profiles(stored, profiles@, profiles@.len() as int);
    lemma_reviews(profiled, reviewed@, reviewed@.len() as int);
    if 0 <= i < features@.len() {
        lemma_stored(features@, features@.len() as int, i);
    }
    if 0 <= i < profiles@.len() {
        assert(is_profiled(profiles@[i], profiled));
    }
}

// ---------------------------------------------------------------------------
// The command line
// ---------------------------------------------------------------------------

proof fn lemma_options(args: Seq<Seq<char>>, k: int, options: OptionsView)
    requires
        0 <= k,
        1 <= options.top <= 100,
    ensures
        read_options(args, k, options) is Ok ==> {
            let o = read_options(args, k, options)->Ok_0;
            &&& o.db_path == options.db_path
            &&& 1 <= o.top <= 100
            &&& options.strict ==> o.strict
            &&& options.json ==> o.json
            &&& o.strict ==> options.strict || exists|i: int|
                k <= i < args.len() && #[trigger] args[i] == "--strict"@
            &&& o.json ==> options.json || exists|i: int|
                k <= i < args.len() && #[trigger] args[i] == "--json"@
            &&& o.as_of is Some ==> options.as_of is Some || exists|i: int|
                k <= i < args.len() && #[trigger] args[i] == o.as_of->0
        },
    decreases args.len() - k,
{
    if k < args.len() {
        if args[k] == "--as-of"@ {
            if k + 1 < args.len() {
                lemma_options(args, k + 2, OptionsView { as_of: Some(args[k + 1]), ..options });
                lemma_as_of(args, k + 2, OptionsView { as_of: Some(args[k + 1]), ..options });
            }
        } else if args[k] == "--user-id"@ {
            if k + 1 < args.len() {
                lemma_options(args, k + 2, OptionsView { user_id: Some(args[k + 1]), ..options });
            }
        } else if args[k] == "--top"@ {
            if k + 1 < args.len() {
                if let Some(top) = crate::numbers::parsed_nat(args[k + 1], usize::MAX as nat) {
                    if 1 <= top <= 100 {
                        lemma_options(args, k + 2, OptionsView { top: top as int, ..options });
                    }
                }
            }
        } else if args[k] == "--json"@ {
            lemma_options(args, k + 1, OptionsView { json: true, ..options });
        } else if args[k] == "--strict"@ {
            lemma_options(args, k + 1, OptionsView { strict: true, ..options });
        }
    }
}

proof fn lemma_as_of(args: Seq<Seq<char>>, k: int, options: OptionsView)
    requires
        0 <= k,
        options.as_of is Some,
    ensures
        read_options(args, k, options) is Ok ==> {
            let o = read_options(args, k, options)->Ok_0;
            o.as_of is Some && (o.as_of == options.as_of || exists|i: int|
                k <= i < args.len() && #[trigger] args[i] == o.as_of->0)
        },
    decreases args.len() - k,
{
    if k < args.len() {
        if args[k] == "--as-of"@ {
            if k + 1 < args.len() {
                lemma_as_of(args, k + 2, OptionsView { as_of: Some(args[k + 1]), ..options });
            }
        } else if args[k] == "--user-id"@ {
            if k + 1 < args.len() {
                lemma_as_of(args, k + 2, OptionsView { user_id: Some(args[k + 1]), ..options });
            }
        } else if args[k] == "--top"@ {
            if k + 1 < args.len() {
                if let Some(top) = crate::numbers::parsed_nat(args[k + 1], usize::MAX as nat) {
                    lemma_as_of(args, k + 2, OptionsView { top: top as int, ..options });
                }
            }
        } else if args[k] == "--json"@ {
            lemma_as_of(args, k + 1, OptionsView { json: true, ..options });
        } else if args[k] == "--strict"@ {
            lemma_as_of(args, k + 1, OptionsView { strict: true, ..options });
        }
    }
}

/// The first argument is the database; a run is strict or prints JSON only where it is told to,
/// looks at one to a hundred rows, twenty where it is not told, and knows no other options.
pub proof fn law_audits_do_as_told(args: Vec<String>, r: Result<AuditOptions, String>)
    requires
        call_ensures(parse_options, (&args,), r),
    ensures
        args@.len() == 0 ==> r is Err,
        r is Ok ==> r->Ok_0.db_path@ == args@[0]@,
        r is Ok ==> 1 <= r->Ok_0.top <= 100,
        r is Ok && r->Ok_0.strict ==> exists|i: int|
            1 <= i < args@.len() && (#[trigger] args@[i])@ == "--strict"@,
        r is Ok && r->Ok_0.json ==> exists|i: int|
            1 <= i < args@.len() && (#[trigger] args@[i])@ == "--json"@,
        args@.len() == 1 ==> r is Ok && r->Ok_0.top == 20 && !r->Ok_0.strict && !r->Ok_0.json
            && r->Ok_0.as_of is None,
        args@.len() == 2 && args@[1]@ == "--strict"@ ==> r is Ok && r->Ok_0.strict
            && !r->Ok_0.json,
        args@.len() == 2 && args@[1]@ == "--json"@ ==> r is Ok && r->Ok_0.json && !r->Ok_0.strict,
        args@.len() == 3 && args@[1]@ == "--as-of"@ ==> r is Ok && r->Ok_0.as_of is Some
            && r->Ok_0.as_of->0@ == args@[2]@,
        args@.len() >= 2 && args@[1]@ != "--as-of"@ && args@[1]@ != "--user-id"@ && args@[1]@
            != "--top"@ && args@[1]@ != "--json"@ && args@[1]@ != "--strict"@ ==> r is Err,
{
    if args@.len() > 0 {
        let texts = views(args@);
        let start = crate::dbtool::audit_report::default_options(args@[0]@);
        assert(texts.len() == args@.len());
        assert forall|i: int| 0 <= i < texts.len() implies #[trigger] texts[i] == args@[i]@ by {}
        lemma_options(texts, 1, start);
        reveal_with_fuel(read_options, 3);
        reveal_strlit("--as-of");
        reveal_strlit("--user-id");
        reveal_strlit("--top");
        reveal_strlit("--json");
        reveal_strlit("--strict");
        assert("--as-of"@.len() == 7 && "--user-id"@.len() == 9 && "--top"@.len() == 5
            && "--json"@.len() == 6 && "--strict"@.len() == 8);
        if r is Ok {
            let o = r->Ok_0.view_options();
            assert(o.db_path == r->Ok_0.db_path@);
            assert(o.as_of == opt_view(r->Ok_0.as_of));
            if r->Ok_0.strict {
                let i = choose|i: int| 1 <= i < texts.len() && #[trigger] texts[i] == "--strict"@;
                assert(args@[i]@ == "--strict"@);
            }
            if r->Ok_0.json {
                let i = choose|i: int| 1 <= i < texts.len() && #[trigger] texts[i] == "--json"@;
                assert(args@[i]@ == "--json"@);
            }
        }
    }
}

/// The day of an audit has to be told, and to be a day.
pub proof fn law_audits_have_a_day(options: AuditOptions, is_day: bool, r: Result<String, String>)
    requires
        call_ensures(audit_day, (&options, is_day), r),
    ensures
        r is Ok <==> options.as_of is Some && is_day,
        r is Ok ==> r->Ok_0@ == options.as_of->0@,
{
}

/// What is recent begins so many days before.
pub proof fn law_recent_begins_before(as_of_days: i64, recent_days: u32, r: Result<i64, String>)
    requires
        call_ensures(cutoff_days, (Some(as_of_days), recent_days), r),
        0 <= as_of_days,
    ensures
        r is Ok,
        r->Ok_0 == as_of_days - recent_days,
{
}

/// Where no row among the first twenty stands before one whose index is more than three points
/// higher, there is no inversion.
pub proof fn law_ordered_rows_have_no_inversion(
    rows: Vec<AuditRow>,
    r: DiversityAudit,
    seen: Vec<Option<u8>>,
)
    requires
        call_ensures(summarize_diversity, (&rows,), r),
        rows@.len() <= 20,
        call_ensures(visible_indices, (&rows, rows@.len() as usize), seen),
        forall|i: int, j: int|
            0 <= i < j < rows@.len() && (#[trigger] seen@[i]) is Some && (#[trigger] seen@[j])
                is Some ==> seen@[j]->0 <= seen@[i]->0 + 3,
    ensures
        r.mmr_inversion_pairs_over_3_points == 0,
{
    let n = rows@.len() as int;
    assert(rows@.take(n) =~= rows@);
    let shown = crate::dbtool::audit::shown_indices(rows@);
    assert(crate::dbtool::audit::as_ints(seen@) == shown);
    assert forall|i: int| 0 <= i < n implies (match #[trigger] seen@[i] {
        Some(x) => shown[i] == Some(x as int),
        None => shown[i] is None,
    }) by {
        assert(crate::dbtool::audit::as_ints(seen@)[i] == shown[i]);
    }
    assert forall|i: int, j: int|
        0 <= i < j < n && shown[i] is Some && shown[j] is Some implies (#[trigger] shown[j])->0 <= (
    #[trigger] shown[i])->0 + 3 by {
        assert(seen@[i] is Some && seen@[j] is Some);
    }
    lemma_none_before(rows@, shown, true, n);
    lemma_none_before(rows@, shown, false, n);
}

proof fn lemma_none_before(rows: Seq<AuditRow>, seen: Seq<Option<int>>, explained: bool, n: int)
    requires
        0 <= n <= rows.len() == seen.len(),
        forall|i: int, j: int|
            0 <= i < j < seen.len() && seen[i] is Some && seen[j] is Some ==> (
            #[trigger] seen[j])->0 <= (#[trigger] seen[i])->0 + 3,
    ensures
        inversions_before(rows, seen, explained, n) == 0,
    decreases n,
{
    if n > 0 {
        lemma_none_before(rows, seen, explained, n - 1);
        lemma_no_inversion(seen, n - 1, seen.len() as int);
    }
}

} // verus!
