//! Which explanations of a comparison between games may be shown.

use vstd::prelude::*;

use crate::ai::error::{invalid, invalid_output, AiError};
use crate::ai::sanitize::{html_or_url, looks_like_html_or_url};
use crate::numbers::{decimal, u64_decimal};
use crate::text::{
    is_blank, join2, join3, list_contains, opt_view, str_eq, str_starts_with, trimmed, views,
};

verus! {

pub const COMPARE_PROMPT_VERSION: &'static str = "compare-v1";

/// An explanation of the differences between games.
#[derive(Debug, PartialEq)]
pub struct CompareExplanation {
    pub summary: String,
    pub differences: Vec<CompareDifference>,
    pub risks: Vec<String>,
    pub preferred_app_id: Option<u32>,
    pub preferred_reason: Option<String>,
}

#[derive(Debug, PartialEq)]
pub struct CompareDifference {
    pub column: String,
    pub text: String,
    pub evidence_ids: Vec<String>,
}

impl Default for CompareExplanation {
    fn default() -> (r: CompareExplanation)
        ensures
            r.summary@.len() == 0,
            r.differences@.len() == 0,
            r.risks@.len() == 0,
            r.preferred_app_id is None,
            r.preferred_reason is None,
    {
        CompareExplanation {
            summary: String::new(),
            differences: Vec::new(),
            risks: Vec::new(),
            preferred_app_id: None,
            preferred_reason: None,
        }
    }
}

/// The dimensions of a comparison; a model may not invent others.
pub open spec fn compare_columns() -> Seq<Seq<char>> {
    seq![
        "party_size"@,
        "platforms"@,
        "price"@,
        "multiplayer_mode"@,
        "service_dependency"@,
        "content_pacing"@,
        "review_quality"@,
        "data_updated_at"@,
    ]
}

pub fn is_compare_column(column: &str) -> (r: bool)
    ensures
        r == compare_columns().contains(column@),
{
    let known = str_eq(column, "party_size") || str_eq(column, "platforms") || str_eq(
        column,
        "price",
    ) || str_eq(column, "multiplayer_mode") || str_eq(column, "service_dependency") || str_eq(
        column,
        "content_pacing",
    ) || str_eq(column, "review_quality") || str_eq(column, "data_updated_at");
    proof {
        let all = compare_columns();
        assert(all[0] == "party_size"@ && all[1] == "platforms"@ && all[2] == "price"@ && all[3]
            == "multiplayer_mode"@ && all[4] == "service_dependency"@ && all[5]
            == "content_pacing"@ && all[6] == "review_quality"@ && all[7] == "data_updated_at"@);
    }
    known
}

/// Evidence about one game: its identifier, `app:` and the identifier, or anything below
/// that.
pub open spec fn belongs_to_app(id: Seq<char>, app_id: u32) -> bool {
    let digits = decimal(app_id as nat);
    id == digits || id == "app:"@ + digits || ("app:"@ + digits + ":"@).is_prefix_of(id)
}

pub fn evidence_belongs_to_app(id: &str, app_id: u32) -> (r: bool)
    ensures
        r == belongs_to_app(id@, app_id),
{
    let digits = u64_decimal(app_id as u64);
    let tagged = join2("app:", digits.as_str());
    let below = join3("app:", digits.as_str(), ":");
    str_eq(id, digits.as_str()) || str_eq(id, tagged.as_str()) || str_starts_with(
        id,
        below.as_str(),
    )
}

/// Too long, or with markup or an address in it.
pub open spec fn unshowable(text: Seq<char>, max: nat) -> bool {
    text.len() > max || html_or_url(text)
}

pub fn is_unshowable(text: &str, max: usize) -> (r: bool)
    ensures
        r == unshowable(text@, max as nat),
{
    text.unicode_len() > max || looks_like_html_or_url(text)
}

/// The first identifier that is not allowed.
pub open spec fn first_disallowed(ids: Seq<Seq<char>>, allowed: Seq<Seq<char>>) -> Option<Seq<char>>
    decreases ids.len(),
{
    if ids.len() == 0 {
        None
    } else {
        match first_disallowed(ids.drop_last(), allowed) {
            Some(id) => Some(id),
            None => if allowed.contains(ids.last()) {
                None
            } else {
                Some(ids.last())
            },
        }
    }
}

fn find_disallowed<'a>(ids: &'a Vec<String>, allowed: &Vec<String>) -> (r: Option<&'a str>)
    ensures
        crate::text::str_view(r) == first_disallowed(views(ids@), views(allowed@)),
{
    let mut i: usize = 0;
    assert(views(ids@).take(0) =~= Seq::empty());
    while i < ids.len()
        invariant
            0 <= i <= ids@.len(),
            first_disallowed(views(ids@).take(i as int), views(allowed@)) is None,
        decreases ids@.len() - i,
    {
        proof {
            let next = views(ids@).take(i + 1);
            assert(next.drop_last() =~= views(ids@).take(i as int));
            assert(next.last() == ids@[i as int]@);
        }
        if !list_contains(allowed, ids[i].as_str()) {
            proof {
                lemma_first_disallowed_stays(views(ids@), views(allowed@), i + 1);
            }
            return Some(ids[i].as_str());
        }
        i = i + 1;
    }
    assert(views(ids@).take(i as int) =~= views(ids@));
    None
}

proof fn lemma_first_disallowed_stays(ids: Seq<Seq<char>>, allowed: Seq<Seq<char>>, k: int)
    requires
        0 <= k <= ids.len(),
        first_disallowed(ids.take(k), allowed) is Some,
    ensures
        first_disallowed(ids, allowed) == first_disallowed(ids.take(k), allowed),
    decreases ids.len(),
{
    if k == ids.len() {
        assert(ids.take(k) =~= ids);
    } else {
        assert(ids.drop_last().take(k) =~= ids.take(k));
        lemma_first_disallowed_stays(ids.drop_last(), allowed, k);
    }
}

/// Why one difference may not be shown.
pub open spec fn difference_fault(d: CompareDifference, allowed: Seq<Seq<char>>) -> Option<
    Seq<char>,
> {
    if !compare_columns().contains(d.column@) {
        Some("compare column '"@ + d.column@ + "' is not allowed"@)
    } else if d.text@.len() > 400 {
        Some("compare difference text exceeds 400 chars"@)
    } else if html_or_url(d.text@) {
        Some("compare difference contains disallowed content"@)
    } else if trimmed(d.text@).len() > 0 && d.evidence_ids@.len() == 0 {
        Some("compare differences require evidence_ids"@)
    } else if d.evidence_ids@.len() > 12 {
        Some("compare difference evidence_ids exceeds 12 entries"@)
    } else {
        match first_disallowed(views(d.evidence_ids@), allowed) {
            Some(id) => Some("compare evidence_id '"@ + id + "' is not allowed"@),
            None => None,
        }
    }
}

fn check_difference(d: &CompareDifference, allowed: &Vec<String>) -> (r: Option<String>)
    ensures
        opt_view(r) == difference_fault(*d, views(allowed@)),
{
    if !is_compare_column(d.column.as_str()) {
        return Some(join3("compare column '", d.column.as_str(), "' is not allowed"));
    }
    if d.text.as_str().unicode_len() > 400 {
        return Some("compare difference text exceeds 400 chars".to_owned());
    }
    if looks_like_html_or_url(d.text.as_str()) {
        return Some("compare difference contains disallowed content".to_owned());
    }
    if !is_blank(d.text.as_str()) && d.evidence_ids.len() == 0 {
        return Some("compare differences require evidence_ids".to_owned());
    }
    if d.evidence_ids.len() > 12 {
        return Some("compare difference evidence_ids exceeds 12 entries".to_owned());
    }
    match find_disallowed(&d.evidence_ids, allowed) {
        Some(id) => Some(join3("compare evidence_id '", id, "' is not allowed")),
        None => None,
    }
}

/// Why the first faulty difference may not be shown.
pub open spec fn differences_fault(
    differences: Seq<CompareDifference>,
    allowed: Seq<Seq<char>>,
) -> Option<Seq<char>>
    decreases differences.len(),
{
    if differences.len() == 0 {
        None
    } else if difference_fault(differences[0], allowed) is Some {
        difference_fault(differences[0], allowed)
    } else {
        differences_fault(differences.drop_first(), allowed)
    }
}

/// Some difference cites evidence.
pub open spec fn cites_evidence(differences: Seq<CompareDifference>) -> bool {
    exists|i: int| 0 <= i < differences.len() && (#[trigger] differences[i]).evidence_ids@.len() > 0
}

/// Some difference cites evidence about the game.
pub open spec fn cites_app(differences: Seq<CompareDifference>, app_id: u32) -> bool {
    exists|i: int, j: int|
        0 <= i < differences.len() && 0 <= j < differences[i].evidence_ids@.len() && belongs_to_app(
            (#[trigger] differences[i].evidence_ids@[j])@,
            app_id,
        )
}

/// A risk that may not be shown.
pub open spec fn has_bad_risk(risks: Seq<String>) -> bool {
    exists|i: int| 0 <= i < risks.len() && unshowable((#[trigger] risks[i])@, 400)
}

/// The summary, or some risk, says something.
pub open spec fn general_claim(e: CompareExplanation) -> bool {
    trimmed(e.summary@).len() > 0 || exists|i: int|
        0 <= i < e.risks@.len() && trimmed((#[trigger] e.risks@[i])@).len() > 0
}

/// Why the preferred game, or the reason for it, may not be shown.
pub open spec fn preference_fault(e: CompareExplanation, allowed_app_ids: Seq<u32>) -> Option<
    Seq<char>,
> {
    match e.preferred_app_id {
        None => None,
        Some(app_id) => if !allowed_app_ids.contains(app_id) {
            Some(
                "preferred_app_id "@ + decimal(app_id as nat) + " is outside the compare set"@,
            )
        } else {
            match e.preferred_reason {
                None => None,
                Some(reason) => if trimmed(reason@).len() == 0 {
                    None
                } else if unshowable(reason@, 400) {
                    Some("preferred_reason contains disallowed content"@)
                } else if !cites_app(e.differences@, app_id) {
                    Some("preferred_reason requires evidence for preferred_app_id"@)
                } else {
                    None
                },
            }
        },
    }
}

/// Why an explanation may not be shown: the first fault, in the order of checking.
pub open spec fn compare_fault(
    e: CompareExplanation,
    allowed_app_ids: Seq<u32>,
    allowed_evidence: Seq<Seq<char>>,
) -> Option<Seq<char>> {
    if e.summary@.len() > 800 {
        Some("compare.summary exceeds 800 chars"@)
    } else if html_or_url(e.summary@) {
        Some("compare.summary contains disallowed content"@)
    } else if e.differences@.len() > 12 {
        Some("compare.differences exceeds 12 entries"@)
    } else if e.risks@.len() > 8 {
        Some("compare.risks exceeds 8 entries"@)
    } else if has_bad_risk(e.risks@) {
        Some("compare risk contains disallowed content"@)
    } else if differences_fault(e.differences@, allowed_evidence) is Some {
        differences_fault(e.differences@, allowed_evidence)
    } else if general_claim(e) && !cites_evidence(e.differences@) {
        Some("compare summary/risks require evidence-backed differences"@)
    } else {
        preference_fault(e, allowed_app_ids)
    }
}

fn check_differences(differences: &Vec<CompareDifference>, allowed: &Vec<String>) -> (r: Option<
    String,
>)
    ensures
        opt_view(r) == differences_fault(differences@, views(allowed@)),
{
    let mut i: usize = 0;
    assert(differences@.skip(0) =~= differences@);
    while i < differences.len()
        invariant
            0 <= i <= differences@.len(),
            differences_fault(differences@, views(allowed@)) == differences_fault(
                differences@.skip(i as int),
                views(allowed@),
            ),
        decreases differences@.len() - i,
    {
        proof {
            assert(differences@.skip(i as int)[0] == differences@[i as int]);
            assert(differences@.skip(i as int).drop_first() =~= differences@.skip(i + 1));
        }
        let fault = check_difference(&differences[i], allowed);
        if fault.is_some() {
            return fault;
        }
        i = i + 1;
    }
    None
}

fn check_risks(risks: &Vec<String>) -> (r: bool)
    ensures
        r == has_bad_risk(risks@),
{
    let mut i: usize = 0;
    while i < risks.len()
        invariant
            0 <= i <= risks@.len(),
            forall|j: int| 0 <= j < i ==> !unshowable((#[trigger] risks@[j])@, 400),
        decreases risks@.len() - i,
    {
        if is_unshowable(risks[i].as_str(), 400) {
            return true;
        }
        i = i + 1;
    }
    false
}

fn makes_claim(e: &CompareExplanation) -> (r: bool)
    ensures
        r == general_claim(*e),
{
    if !is_blank(e.summary.as_str()) {
        return true;
    }
    let mut i: usize = 0;
    while i < e.risks.len()
        invariant
            0 <= i <= e.risks@.len(),
            trimmed(e.summary@).len() == 0,
            forall|j: int| 0 <= j < i ==> trimmed((#[trigger] e.risks@[j])@).len() == 0,
        decreases e.risks@.len() - i,
    {
        if !is_blank(e.risks[i].as_str()) {
            return true;
        }
        i = i + 1;
    }
    false
}

fn has_evidence(differences: &Vec<CompareDifference>) -> (r: bool)
    ensures
        r == cites_evidence(differences@),
{
    let mut i: usize = 0;
    while i < differences.len()
        invariant
            0 <= i <= differences@.len(),
            forall|j: int| 0 <= j < i ==> (#[trigger] differences@[j]).evidence_ids@.len() == 0,
        decreases differences@.len() - i,
    {
        if differences[i].evidence_ids.len() > 0 {
            return true;
        }
        i = i + 1;
    }
    false
}

fn has_evidence_for(differences: &Vec<CompareDifference>, app_id: u32) -> (r: bool)
    ensures
        r == cites_app(differences@, app_id),
{
    let mut i: usize = 0;
    while i < differences.len()
        invariant
            0 <= i <= differences@.len(),
            forall|a: int, b: int|
                0 <= a < i && 0 <= b < differences@[a].evidence_ids@.len() ==> !belongs_to_app(
                    (#[trigger] differences@[a].evidence_ids@[b])@,
                    app_id,
                ),
        decreases differences@.len() - i,
    {
        let mut j: usize = 0;
        while j < differences[i as usize].evidence_ids.len()
            invariant
                0 <= i < differences@.len(),
                0 <= j <= differences@[i as int].evidence_ids@.len(),
                forall|a: int, b: int|
                    0 <= a < i && 0 <= b < differences@[a].evidence_ids@.len() ==> !belongs_to_app(
                        (#[trigger] differences@[a].evidence_ids@[b])@,
                        app_id,
                    ),
                forall|b: int|
                    0 <= b < j ==> !belongs_to_app(
                        (#[trigger] differences@[i as int].evidence_ids@[b])@,
                        app_id,
                    ),
            decreases differences@[i as int].evidence_ids@.len() - j,
        {
            if evidence_belongs_to_app(differences[i].evidence_ids[j].as_str(), app_id) {
                assert(belongs_to_app(differences@[i as int].evidence_ids@[j as int]@, app_id));
                return true;
            }
            j = j + 1;
        }
        i = i + 1;
    }
    false
}

fn check_preference(e: &CompareExplanation, allowed_app_ids: &Vec<u32>) -> (r: Option<String>)
    ensures
        opt_view(r) == preference_fault(*e, allowed_app_ids@),
{
    match e.preferred_app_id {
        None => None,
        Some(app_id) => {
            if !contains_id(allowed_app_ids, app_id) {
                return Some(
                    join3(
                        "preferred_app_id ",
                        u64_decimal(app_id as u64).as_str(),
                        " is outside the compare set",
                    ),
                );
            }
            match &e.preferred_reason {
                None => None,
                Some(reason) => {
                    if is_blank(reason.as_str()) {
                        None
                    } else if is_unshowable(reason.as_str(), 400) {
                        Some("preferred_reason contains disallowed content".to_owned())
                    } else if !has_evidence_for(&e.differences, app_id) {
                        Some("preferred_reason requires evidence for preferred_app_id".to_owned())
                    } else {
                        None
                    }
                },
            }
        },
    }
}

/// True when `id` is in the list.
pub fn contains_id(ids: &Vec<u32>, id: u32) -> (r: bool)
    ensures
        r == ids@.contains(id),
{
    let mut i: usize = 0;
    while i < ids.len()
        invariant
            0 <= i <= ids@.len(),
            forall|j: int| 0 <= j < i ==> #[trigger] ids@[j] != id,
        decreases ids@.len() - i,
    {
        if ids[i] == id {
            return true;
        }
        i = i + 1;
    }
    false
}

/// An explanation as it is shown: a reason without a preferred game is dropped.
pub open spec fn shown_explanation(e: CompareExplanation) -> CompareExplanation {
    CompareExplanation {
        preferred_reason: if e.preferred_app_id is None {
            None
        } else {
            e.preferred_reason
        },
        ..e
    }
}

/// Accepts an explanation that stays within the compared games, the allowed columns and
/// the allowed evidence, and refuses it with the first fault otherwise.
pub fn parse_compare_explanation(
    explanation: CompareExplanation,
    allowed_app_ids: &Vec<u32>,
    allowed_evidence: &Vec<String>,
) -> (r: Result<CompareExplanation, AiError>)
    ensures
        match compare_fault(explanation, allowed_app_ids@, views(allowed_evidence@)) {
            Some(reason) => invalid(r, reason),
            None => r == Ok::<CompareExplanation, AiError>(shown_explanation(explanation)),
        },
{
    if explanation.summary.as_str().unicode_len() > 800 {
        return Err(invalid_output("compare.summary exceeds 800 chars"));
    }
    if looks_like_html_or_url(explanation.summary.as_str()) {
        return Err(invalid_output("compare.summary contains disallowed content"));
    }
    if explanation.differences.len() > 12 {
        return Err(invalid_output("compare.differences exceeds 12 entries"));
    }
    if explanation.risks.len() > 8 {
        return Err(invalid_output("compare.risks exceeds 8 entries"));
    }
    if check_risks(&explanation.risks) {
        return Err(invalid_output("compare risk contains disallowed content"));
    }
    match check_differences(&explanation.differences, allowed_evidence) {
        Some(reason) => return Err(invalid_output(reason.as_str())),
        None => {},
    }
    if makes_claim(&explanation) && !has_evidence(&explanation.differences) {
        return Err(
            invalid_output("compare summary/risks require evidence-backed differences"),
        );
    }
    match check_preference(&explanation, allowed_app_ids) {
        Some(reason) => return Err(invalid_output(reason.as_str())),
        None => {},
    }
    let mut shown = explanation;
    if shown.preferred_app_id.is_none() {
        shown.preferred_reason = None;
    }
    Ok(shown)
}

/// What is accepted cites only allowed evidence, and prefers only a compared game.
pub proof fn lemma_accepted_comparison_is_grounded(
    e: CompareExplanation,
    allowed_app_ids: Seq<u32>,
    allowed_evidence: Seq<Seq<char>>,
    i: int,
    j: int,
)
    requires
        compare_fault(e, allowed_app_ids, allowed_evidence) is None,
        0 <= i < e.differences@.len(),
        0 <= j < e.differences@[i].evidence_ids@.len(),
    ensures
        allowed_evidence.contains(e.differences@[i].evidence_ids@[j]@),
        compare_columns().contains(e.differences@[i].column@),
        e.preferred_app_id matches Some(app_id) ==> allowed_app_ids.contains(app_id),
{
    lemma_no_fault_in_each(e.differences@, allowed_evidence, i);
    let ids = views(e.differences@[i].evidence_ids@);
    lemma_all_allowed(ids, allowed_evidence, j);
    assert(ids[j] == e.differences@[i].evidence_ids@[j]@);
}

proof fn lemma_no_fault_in_each(
    differences: Seq<CompareDifference>,
    allowed: Seq<Seq<char>>,
    i: int,
)
    requires
        differences_fault(differences, allowed) is None,
        0 <= i < differences.len(),
    ensures
        difference_fault(differences[i], allowed) is None,
    decreases differences.len(),
{
    if i > 0 {
        assert(differences.drop_first()[i - 1] == differences[i]);
        lemma_no_fault_in_each(differences.drop_first(), allowed, i - 1);
    }
}

proof fn lemma_all_allowed(ids: Seq<Seq<char>>, allowed: Seq<Seq<char>>, j: int)
    requires
        first_disallowed(ids, allowed) is None,
        0 <= j < ids.len(),
    ensures
        allowed.contains(ids[j]),
    decreases ids.len(),
{
    if j < ids.len() - 1 {
        assert(ids.drop_last()[j] == ids[j]);
        lemma_all_allowed(ids.drop_last(), allowed, j);
    }
}

pub fn compare_system_prompt() -> (r: &'static str)
    ensures
        r@
            == "You are MPGS comparison assistant. Explain only differences present in the server fact matrix. Use only allowed column names. Never invent AppIDs, prices, platforms, or evidence. Output JSON only."@,
{
    "You are MPGS comparison assistant. Explain only differences present in the server fact matrix. Use only allowed column names. Never invent AppIDs, prices, platforms, or evidence. Output JSON only."
}

/// The schema that an explanation is asked for in, as JSON text.
pub fn compare_schema() -> (r: &'static str)
    ensures
        r@
            == "{\"type\":\"object\",\"additionalProperties\":false,\"required\":[\"summary\",\"differences\",\"risks\"],\"properties\":{\"summary\":{\"type\":\"string\"},\"differences\":{\"type\":\"array\",\"items\":{\"type\":\"object\",\"additionalProperties\":false,\"required\":[\"column\",\"text\",\"evidence_ids\"],\"properties\":{\"column\":{\"type\":\"string\"},\"text\":{\"type\":\"string\"},\"evidence_ids\":{\"type\":\"array\",\"items\":{\"type\":\"string\"}}}}},\"risks\":{\"type\":\"array\",\"items\":{\"type\":\"string\"}},\"preferred_app_id\":{\"type\":[\"integer\",\"null\"],\"minimum\":1},\"preferred_reason\":{\"type\":[\"string\",\"null\"]}}}"@,
{
    "{\"type\":\"object\",\"additionalProperties\":false,\"required\":[\"summary\",\"differences\",\"risks\"],\"properties\":{\"summary\":{\"type\":\"string\"},\"differences\":{\"type\":\"array\",\"items\":{\"type\":\"object\",\"additionalProperties\":false,\"required\":[\"column\",\"text\",\"evidence_ids\"],\"properties\":{\"column\":{\"type\":\"string\"},\"text\":{\"type\":\"string\"},\"evidence_ids\":{\"type\":\"array\",\"items\":{\"type\":\"string\"}}}}},\"risks\":{\"type\":\"array\",\"items\":{\"type\":\"string\"}},\"preferred_app_id\":{\"type\":[\"integer\",\"null\"],\"minimum\":1},\"preferred_reason\":{\"type\":[\"string\",\"null\"]}}}"
}

}
