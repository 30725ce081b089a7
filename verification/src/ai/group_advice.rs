//! Advice to a group on what to play, from aggregate votes alone.

use vstd::prelude::*;

use crate::ai::compare::{contains_id, is_unshowable, unshowable};
use crate::ai::error::{invalid, invalid_output, AiError};
use crate::ai::sanitize::{html_or_url, looks_like_html_or_url};
use crate::numbers::{decimal, u64_decimal};
use crate::sort::{chain, sort_stable, stable_sorted, Precedence};
use crate::text::{join2, join3, list_contains, opt_view, views};

verus! {

pub const GROUP_ADVICE_PROMPT_VERSION: &'static str = "group-advice-v1";

/// The aggregated wishes of a group; no member can be told from it.
#[derive(Debug, PartialEq)]
pub struct GroupAdviceRequest {
    pub party_size: Option<u8>,
    pub platforms: Vec<String>,
    pub modes_preferred: Vec<String>,
    pub modes_excluded: Vec<String>,
    pub candidate_app_ids: Vec<u32>,
    pub vote_counts: Vec<AppVoteCount>,
}

#[derive(Debug, Clone, Copy, PartialEq, Eq, Structural)]
pub struct AppVoteCount {
    pub app_id: u32,
    pub votes: u32,
}

#[derive(Debug, PartialEq)]
pub struct GroupAdviceResult {
    pub primary_app_id: u32,
    pub alternatives: Vec<u32>,
    pub compromise_reason: String,
    pub conflicts: Vec<String>,
    pub evidence_ids: Vec<String>,
}

// ---------------------------------------------------------------------------
// Advice of a model
// ---------------------------------------------------------------------------

/// The first alternative that is not a candidate.
pub open spec fn first_outside(ids: Seq<u32>, candidates: Seq<u32>) -> Option<u32>
    decreases ids.len(),
{
    if ids.len() == 0 {
        None
    } else if !candidates.contains(ids[0]) {
        Some(ids[0])
    } else {
        first_outside(ids.drop_first(), candidates)
    }
}

/// Every game is named once.
pub open spec fn all_different(primary: u32, alternatives: Seq<u32>) -> bool {
    alternatives.no_duplicates() && !alternatives.contains(primary)
}

/// Why the evidence may not be cited: the first identifier that is not allowed or is
/// repeated.
pub open spec fn evidence_fault(ids: Seq<Seq<char>>, allowed: Seq<Seq<char>>) -> Option<Seq<char>>
    decreases ids.len(),
{
    if ids.len() == 0 {
        None
    } else {
        let front = evidence_fault(ids.drop_last(), allowed);
        if front is Some {
            front
        } else if ids.last().len() > 120 || !allowed.contains(ids.last()) {
            Some("group advice evidence_id '"@ + ids.last() + "' is not allowed"@)
        } else if ids.drop_last().contains(ids.last()) {
            Some("group advice evidence_ids must be unique"@)
        } else {
            None
        }
    }
}

pub open spec fn has_bad_conflict(conflicts: Seq<String>) -> bool {
    exists|i: int| 0 <= i < conflicts.len() && unshowable((#[trigger] conflicts[i])@, 400)
}

/// Why advice may not be given: the first fault, in the order of checking.
pub open spec fn advice_fault(
    a: GroupAdviceResult,
    candidates: Seq<u32>,
    allowed_evidence: Seq<Seq<char>>,
) -> Option<Seq<char>> {
    if !candidates.contains(a.primary_app_id) {
        Some("primary_app_id "@ + decimal(a.primary_app_id as nat) + " outside candidates"@)
    } else if first_outside(a.alternatives@, candidates) is Some {
        Some(
            "alternative app_id "@ + decimal(first_outside(a.alternatives@, candidates)->0 as nat)
                + " outside candidates"@,
        )
    } else if !all_different(a.primary_app_id, a.alternatives@) {
        Some("alternatives must be unique and exclude primary_app_id"@)
    } else if a.alternatives@.len() > 4 {
        Some("alternatives exceeds 4 entries"@)
    } else if a.compromise_reason@.len() > 500 {
        Some("compromise_reason exceeds 500 chars"@)
    } else if html_or_url(a.compromise_reason@) {
        Some("compromise_reason contains disallowed content"@)
    } else if a.conflicts@.len() > 8 {
        Some("conflicts exceeds 8 entries"@)
    } else if has_bad_conflict(a.conflicts@) {
        Some("group advice conflict contains disallowed content"@)
    } else if a.evidence_ids@.len() > 16 {
        Some("group advice evidence_ids exceeds 16 entries"@)
    } else if evidence_fault(views(a.evidence_ids@), allowed_evidence) is Some {
        evidence_fault(views(a.evidence_ids@), allowed_evidence)
    } else if (a.compromise_reason@.len() > 0 || a.conflicts@.len() > 0) && a.evidence_ids@.len()
        == 0 {
        Some("group advice claims require evidence_ids"@)
    } else {
        None
    }
}

fn find_outside(ids: &Vec<u32>, candidates: &Vec<u32>) -> (r: Option<u32>)
    ensures
        r == first_outside(ids@, candidates@),
{
    let mut i: usize = 0;
    assert(ids@.skip(0) =~= ids@);
    while i < ids.len()
        invariant
            0 <= i <= ids@.len(),
            first_outside(ids@, candidates@) == first_outside(ids@.skip(i as int), candidates@),
        decreases ids@.len() - i,
    {
        proof {
            assert(ids@.skip(i as int)[0] == ids@[i as int]);
            assert(ids@.skip(i as int).drop_first() =~= ids@.skip(i + 1));
        }
        if !contains_id(candidates, ids[i]) {
            return Some(ids[i]);
        }
        i = i + 1;
    }
    None
}

/// No identifier occurs twice.
pub fn ids_are_distinct(ids: &Vec<u32>) -> (r: bool)
    ensures
        r == ids@.no_duplicates(),
{
    let mut i: usize = 0;
    while i < ids.len()
        invariant
            0 <= i <= ids@.len(),
            forall|a: int, b: int| 0 <= a < b < i ==> ids@[a] != ids@[b],
        decreases ids@.len() - i,
    {
        let mut j: usize = 0;
        while j < i
            invariant
                0 <= j <= i < ids@.len(),
                forall|a: int| 0 <= a < j ==> ids@[a] != ids@[i as int],
            decreases i - j,
        {
            if ids[j] == ids[i] {
                assert(!(ids@[j as int] != ids@[i as int]));
                return false;
            }
            j = j + 1;
        }
        i = i + 1;
    }
    true
}

fn check_evidence(ids: &Vec<String>, allowed: &Vec<String>) -> (r: Option<String>)
    ensures
        opt_view(r) == evidence_fault(views(ids@), views(allowed@)),
{
    let mut seen: Vec<String> = Vec::new();
    let mut i: usize = 0;
    let ghost all = views(ids@);
    assert(all.take(0) =~= Seq::empty());
    assert(views(seen@) =~= Seq::empty());
    while i < ids.len()
        invariant
            0 <= i <= ids@.len(),
            all == views(ids@),
            views(seen@) == all.take(i as int),
            evidence_fault(all.take(i as int), views(allowed@)) is None,
        decreases ids@.len() - i,
    {
        let id = ids[i].as_str();
        proof {
            let next = all.take(i + 1);
            assert(next.drop_last() =~= all.take(i as int));
            assert(next.last() == id@);
        }
        if id.unicode_len() > 120 || !list_contains(allowed, id) {
            proof {
                lemma_evidence_fault_stays(all, views(allowed@), i + 1);
            }
            return Some(join3("group advice evidence_id '", id, "' is not allowed"));
        }
        if list_contains(&seen, id) {
            proof {
                lemma_evidence_fault_stays(all, views(allowed@), i + 1);
            }
            return Some("group advice evidence_ids must be unique".to_owned());
        }
        let copy = ids[i].clone();
        proof {
            assert(views(seen@.push(copy)) =~= views(seen@).push(copy@));
            assert(all.take(i + 1) =~= all.take(i as int).push(copy@));
        }
        seen.push(copy);
        i = i + 1;
    }
    assert(all.take(i as int) =~= all);
    None
}

proof fn lemma_evidence_fault_stays(ids: Seq<Seq<char>>, allowed: Seq<Seq<char>>, k: int)
    requires
        0 <= k <= ids.len(),
        evidence_fault(ids.take(k), allowed) is Some,
    ensures
        evidence_fault(ids, allowed) == evidence_fault(ids.take(k), allowed),
    decreases ids.len(),
{
    if k == ids.len() {
        assert(ids.take(k) =~= ids);
    } else {
        assert(ids.drop_last().take(k) =~= ids.take(k));
        lemma_evidence_fault_stays(ids.drop_last(), allowed, k);
    }
}

fn check_conflicts(conflicts: &Vec<String>) -> (r: bool)
    ensures
        r == has_bad_conflict(conflicts@),
{
    let mut i: usize = 0;
    while i < conflicts.len()
        invariant
            0 <= i <= conflicts@.len(),
            forall|j: int| 0 <= j < i ==> !unshowable((#[trigger] conflicts@[j])@, 400),
        decreases conflicts@.len() - i,
    {
        if is_unshowable(conflicts[i].as_str(), 400) {
            return true;
        }
        i = i + 1;
    }
    false
}

/// Accepts advice that stays within the candidates and the allowed evidence, and refuses
/// it with the first fault otherwise.
pub fn parse_group_advice(
    advice: GroupAdviceResult,
    allowed_app_ids: &Vec<u32>,
    allowed_evidence: &Vec<String>,
) -> (r: Result<GroupAdviceResult, AiError>)
    ensures
        match advice_fault(advice, allowed_app_ids@, views(allowed_evidence@)) {
            Some(reason) => invalid(r, reason),
            None => r == Ok::<GroupAdviceResult, AiError>(advice),
        },
{
    if !contains_id(allowed_app_ids, advice.primary_app_id) {
        let digits = u64_decimal(advice.primary_app_id as u64);
        let reason = join3("primary_app_id ", digits.as_str(), " outside candidates");
        return Err(invalid_output(reason.as_str()));
    }
    match find_outside(&advice.alternatives, allowed_app_ids) {
        Some(id) => {
            let digits = u64_decimal(id as u64);
            let reason = join3("alternative app_id ", digits.as_str(), " outside candidates");
            return Err(invalid_output(reason.as_str()));
        },
        None => {},
    }
    if !ids_are_distinct(&advice.alternatives) || contains_id(
        &advice.alternatives,
        advice.primary_app_id,
    ) {
        return Err(invalid_output("alternatives must be unique and exclude primary_app_id"));
    }
    if advice.alternatives.len() > 4 {
        return Err(invalid_output("alternatives exceeds 4 entries"));
    }
    if advice.compromise_reason.as_str().unicode_len() > 500 {
        return Err(invalid_output("compromise_reason exceeds 500 chars"));
    }
    if looks_like_html_or_url(advice.compromise_reason.as_str()) {
        return Err(invalid_output("compromise_reason contains disallowed content"));
    }
    if advice.conflicts.len() > 8 {
        return Err(invalid_output("conflicts exceeds 8 entries"));
    }
    if check_conflicts(&advice.conflicts) {
        return Err(invalid_output("group advice conflict contains disallowed content"));
    }
    if advice.evidence_ids.len() > 16 {
        return Err(invalid_output("group advice evidence_ids exceeds 16 entries"));
    }
    match check_evidence(&advice.evidence_ids, allowed_evidence) {
        Some(reason) => return Err(invalid_output(reason.as_str())),
        None => {},
    }
    if (!advice.compromise_reason.as_str().is_empty() || advice.conflicts.len() > 0)
        && advice.evidence_ids.len() == 0 {
        return Err(invalid_output("group advice claims require evidence_ids"));
    }
    Ok(advice)
}

// ---------------------------------------------------------------------------
// Advice without a model
// ---------------------------------------------------------------------------

/// The votes for a game: those of its first row.
pub open spec fn votes_for(votes: Seq<AppVoteCount>, app_id: u32) -> Option<u32>
    decreases votes.len(),
{
    if votes.len() == 0 {
        None
    } else if votes[0].app_id == app_id {
        Some(votes[0].votes)
    } else {
        votes_for(votes.drop_first(), app_id)
    }
}

fn find_votes(votes: &[AppVoteCount], app_id: u32) -> (r: Option<u32>)
    ensures
        r == votes_for(votes@, app_id),
{
    let mut i: usize = 0;
    assert(votes@.skip(0) =~= votes@);
    while i < votes.len()
        invariant
            0 <= i <= votes@.len(),
            votes_for(votes@, app_id) == votes_for(votes@.skip(i as int), app_id),
        decreases votes@.len() - i,
    {
        proof {
            assert(votes@.skip(i as int)[0] == votes@[i as int]);
            assert(votes@.skip(i as int).drop_first() =~= votes@.skip(i + 1));
        }
        if votes[i].app_id == app_id {
            return Some(votes[i].votes);
        }
        i = i + 1;
    }
    None
}

/// The tally of each candidate; no row means no votes.
pub open spec fn tallies(candidates: Seq<u32>, votes: Seq<AppVoteCount>) -> Seq<AppVoteCount> {
    candidates.map_values(
        |app_id: u32|
            AppVoteCount {
                app_id,
                votes: match votes_for(votes, app_id) {
                    Some(n) => n,
                    None => 0,
                },
            },
    )
}

/// More votes first, then the lower application identifier.
pub struct VoteOrder;

impl Precedence<AppVoteCount> for VoteOrder {
    open spec fn orders(&self, item: AppVoteCount) -> bool {
        true
    }

    open spec fn precedes(&self, a: AppVoteCount, b: AppVoteCount) -> bool {
        chain(b.votes - a.votes, a.app_id - b.app_id) <= 0
    }

    proof fn lemma_total(&self, a: AppVoteCount, b: AppVoteCount) {
    }

    proof fn lemma_transitive(&self, a: AppVoteCount, b: AppVoteCount, c: AppVoteCount) {
    }

    fn may_precede(&self, a: &AppVoteCount, b: &AppVoteCount) -> (r: bool) {
        if a.votes != b.votes {
            return a.votes > b.votes;
        }
        a.app_id <= b.app_id
    }
}

/// The candidates in the order of the vote.
pub open spec fn by_votes(candidates: Seq<u32>, votes: Seq<AppVoteCount>) -> Seq<u32> {
    stable_sorted(tallies(candidates, votes), &VoteOrder).map_values(|t: AppVoteCount| t.app_id)
}

/// The compromise: the winner of the vote and the two runners-up; a reason and evidence
/// only where the winner has a row in the tally.
pub open spec fn is_compromise(
    a: GroupAdviceResult,
    candidates: Seq<u32>,
    votes: Seq<AppVoteCount>,
) -> bool {
    let order = by_votes(candidates, votes);
    let voted = votes_for(votes, order[0]) is Some;
    &&& a.primary_app_id == order[0]
    &&& a.alternatives@ == (if order.len() <= 3 {
        order.skip(1)
    } else {
        order.subrange(1, 3)
    })
    &&& a.compromise_reason@ == (if voted {
        "按聚合想玩票数与稳定排序给出确定性折中。"@
    } else {
        Seq::empty()
    })
    &&& a.conflicts@.len() == 0
    &&& views(a.evidence_ids@) == (if voted {
        seq!["vote:aggregate:"@ + decimal(order[0] as nat)]
    } else {
        Seq::empty()
    })
}

/// The deterministic compromise: most votes, then the stable order of identifiers.
pub fn deterministic_group_advice(candidates: &[u32], votes: &[AppVoteCount]) -> (r: Option<
    GroupAdviceResult,
>)
    ensures
        r is None <==> candidates@.len() == 0,
        r matches Some(advice) ==> is_compromise(advice, candidates@, votes@),
{
    if candidates.len() == 0 {
        return None;
    }
    let mut scored: Vec<AppVoteCount> = Vec::new();
    let mut i: usize = 0;
    while i < candidates.len()
        invariant
            0 <= i <= candidates@.len(),
            scored@ == tallies(candidates@, votes@).take(i as int),
        decreases candidates@.len() - i,
    {
        let app_id: u32 = candidates[i];
        let count: u32 = match find_votes(votes, app_id) {
            Some(n) => n,
            None => 0,
        };
        scored.push(AppVoteCount { app_id, votes: count });
        i = i + 1;
        assert(scored@ =~= tallies(candidates@, votes@).take(i as int));
    }
    assert(scored@ =~= tallies(candidates@, votes@));
    let by = VoteOrder;
    let sorted = sort_stable(scored, &by);
    let ghost order = by_votes(candidates@, votes@);
    assert(order.len() == sorted@.len());
    assert(sorted@.len() > 0);
    let primary: u32 = sorted[0].app_id;
    let mut alternatives: Vec<u32> = Vec::new();
    let mut k: usize = 1;
    while k < sorted.len() && k < 3
        invariant
            1 <= k <= sorted@.len(),
            k <= 3,
            order == sorted@.map_values(|t: AppVoteCount| t.app_id),
            alternatives@ == order.subrange(1, k as int),
        decreases sorted@.len() - k,
    {
        alternatives.push(sorted[k].app_id);
        k = k + 1;
        assert(alternatives@ =~= order.subrange(1, k as int));
    }
    assert(alternatives@ =~= (if order.len() <= 3 {
        order.skip(1)
    } else {
        order.subrange(1, 3)
    }));
    let mut evidence_ids: Vec<String> = Vec::new();
    let compromise_reason = if find_votes(votes, primary).is_some() {
        evidence_ids.push(join2("vote:aggregate:", u64_decimal(primary as u64).as_str()));
        "按聚合想玩票数与稳定排序给出确定性折中。".to_owned()
    } else {
        String::new()
    };
    proof {
        if votes_for(votes@, primary) is Some {
            assert(views(evidence_ids@) =~= seq!["vote:aggregate:"@ + decimal(primary as nat)]);
        } else {
            assert(views(evidence_ids@) =~= Seq::empty());
            assert(compromise_reason@ =~= Seq::empty());
        }
    }
    Some(
        GroupAdviceResult {
            primary_app_id: primary,
            alternatives,
            compromise_reason,
            conflicts: Vec::new(),
            evidence_ids,
        },
    )
}

/// The compromise names a candidate that no other candidate has more votes than.
pub proof fn lemma_compromise_wins_the_vote(
    candidates: Seq<u32>,
    votes: Seq<AppVoteCount>,
    i: int,
)
    requires
        0 <= i < candidates.len(),
    ensures
        candidates.contains(by_votes(candidates, votes)[0]),
        ({
            let winner = match votes_for(votes, by_votes(candidates, votes)[0]) {
                Some(n) => n,
                None => 0,
            };
            let other = match votes_for(votes, candidates[i]) {
                Some(n) => n,
                None => 0,
            };
            winner >= other
        }),
{
    let t = tallies(candidates, votes);
    let s = stable_sorted(t, &VoteOrder);
    crate::sort::lemma_sorted_in_order(t, &VoteOrder);
    crate::sort::lemma_sorted_members(t, &VoteOrder);
    crate::sort::lemma_sorted_rearranges(t, &VoteOrder);
    assert(s.contains(s[0]));
    assert(t.contains(s[0]));
    let w = choose|w: int| 0 <= w < t.len() && t[w] == s[0];
    assert(candidates[w] == by_votes(candidates, votes)[0]);
    assert(t.contains(t[i]));
    assert(s.contains(t[i]));
    let k = choose|k: int| 0 <= k < s.len() && s[k] == t[i];
    if k > 0 {
        assert(VoteOrder.precedes(s[0], s[k]));
    }
}

pub fn group_advice_system_prompt() -> (r: &'static str)
    ensures
        r@
            == "You are MPGS group advisor. Use only aggregate preferences, vote counts, and candidate facts. Never mention individual members, raw feedback, or private data. Output primary, alternatives, compromise_reason, conflicts, and evidence_ids. JSON only."@,
{
    "You are MPGS group advisor. Use only aggregate preferences, vote counts, and candidate facts. Never mention individual members, raw feedback, or private data. Output primary, alternatives, compromise_reason, conflicts, and evidence_ids. JSON only."
}

/// The schema that advice is asked for in, as JSON text.
pub fn group_advice_schema() -> (r: &'static str)
    ensures
        r@
            == "{\"type\":\"object\",\"additionalProperties\":false,\"required\":[\"primary_app_id\",\"alternatives\",\"compromise_reason\",\"conflicts\",\"evidence_ids\"],\"properties\":{\"primary_app_id\":{\"type\":\"integer\",\"minimum\":1},\"alternatives\":{\"type\":\"array\",\"items\":{\"type\":\"integer\",\"minimum\":1}},\"compromise_reason\":{\"type\":\"string\"},\"conflicts\":{\"type\":\"array\",\"items\":{\"type\":\"string\"}},\"evidence_ids\":{\"type\":\"array\",\"items\":{\"type\":\"string\"}}}}"@,
{
    "{\"type\":\"object\",\"additionalProperties\":false,\"required\":[\"primary_app_id\",\"alternatives\",\"compromise_reason\",\"conflicts\",\"evidence_ids\"],\"properties\":{\"primary_app_id\":{\"type\":\"integer\",\"minimum\":1},\"alternatives\":{\"type\":\"array\",\"items\":{\"type\":\"integer\",\"minimum\":1}},\"compromise_reason\":{\"type\":\"string\"},\"conflicts\":{\"type\":\"array\",\"items\":{\"type\":\"string\"}},\"evidence_ids\":{\"type\":\"array\",\"items\":{\"type\":\"string\"}}}}"
}

}
