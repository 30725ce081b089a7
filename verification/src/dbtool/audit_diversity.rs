//! How varied the first places of a ranking are, whether games that were moved up say why,
//! and whether what the explanations cite can be looked up.

use vstd::prelude::*;

use crate::dbtool::audit::{
    as_ints, first_rows, shown_indices, visible_indices, AuditRow, QUALITY_GATE_TOP,
};
use crate::dbtool::folds::lemma_distinct_keys;
use crate::dbtool::golden::{distinct, distinct_texts};
use crate::dbtool::sorted::{
    lemma_sorted_texts, sort_texts, sorted_texts, strictly_sorted,
};
use crate::dbtool::tally::{distinct_before, tally};
use crate::server::ranking::SlotReason;
use crate::sort::{lemma_text_order_antisymmetric, text_comparison, text_order};
use crate::text::{list_contains, opt_view, str_eq, views};

verus! {

/// How many points of index a game may be ahead of one that is placed above it.
pub const MAX_UNEXPLAINED_POINTS: u8 = 3;

/// How many unresolved identifiers a report lists.
pub const MAX_UNRESOLVED_EVIDENCE_ID_SAMPLES: usize = 20;

// ---------------------------------------------------------------------------
// Modes
// ---------------------------------------------------------------------------

/// The known modes of the first `n` games, in their order.
pub open spec fn modes_before(rows: Seq<AuditRow>, n: int) -> Seq<Seq<char>>
    decreases n,
{
    if n <= 0 {
        Seq::empty()
    } else {
        let front = modes_before(rows, n - 1);
        match rows[n - 1].mode {
            Some(mode) => front.push(mode@),
            None => front,
        }
    }
}

fn first_modes(rows: &Vec<AuditRow>, count: usize) -> (r: Vec<String>)
    requires
        count <= rows@.len(),
    ensures
        views(r@) == modes_before(rows@, count as int),
{
    let mut out: Vec<String> = Vec::new();
    let mut i: usize = 0;
    assert(views(out@) =~= Seq::empty());
    while i < count
        invariant
            0 <= i <= count <= rows@.len(),
            views(out@) == modes_before(rows@, i as int),
        decreases count - i,
    {
        match &rows[i].mode {
            Some(mode) => {
                let text = mode.clone();
                proof {
                    assert(views(out@.push(text)) =~= views(out@).push(text@));
                }
                out.push(text);
            },
            None => {},
        }
        i = i + 1;
    }
    out
}

/// How often a text occurs.
pub open spec fn count_text(texts: Seq<Seq<char>>, text: Seq<char>) -> nat
    decreases texts.len(),
{
    if texts.len() == 0 {
        0
    } else {
        count_text(texts.drop_last(), text) + (if texts.last() == text {
            1nat
        } else {
            0
        })
    }
}

/// The most frequent of the names; the first in order where several are as frequent.
pub open spec fn most_frequent(names: Seq<Seq<char>>, texts: Seq<Seq<char>>) -> Option<Seq<char>>
    decreases names.len(),
{
    if names.len() == 0 {
        None
    } else {
        let name = names.last();
        match most_frequent(names.drop_last(), texts) {
            Some(best) => if count_text(texts, name) > count_text(texts, best) || (count_text(
                texts,
                name,
            ) == count_text(texts, best) && text_order(name, best) < 0) {
                Some(name)
            } else {
                Some(best)
            },
            None => Some(name),
        }
    }
}

fn occurrences(texts: &Vec<String>, text: &str) -> (r: usize)
    ensures
        r == count_text(views(texts@), text@),
{
    let mut count: usize = 0;
    let mut i: usize = 0;
    assert(views(texts@).take(0) =~= Seq::empty());
    while i < texts.len()
        invariant
            0 <= i <= texts@.len(),
            count <= i,
            count == count_text(views(texts@).take(i as int), text@),
        decreases texts@.len() - i,
    {
        proof {
            let next = views(texts@).take(i + 1);
            assert(next.drop_last() =~= views(texts@).take(i as int));
            assert(next.last() == texts@[i as int]@);
        }
        if str_eq(texts[i].as_str(), text) {
            count = count + 1;
        }
        i = i + 1;
    }
    assert(views(texts@).take(texts@.len() as int) =~= views(texts@));
    count
}

fn find_most_frequent(names: &Vec<String>, texts: &Vec<String>) -> (r: Option<(String, usize)>)
    ensures
        match most_frequent(views(names@), views(texts@)) {
            Some(best) => r matches Some((name, count)) && name@ == best && count == count_text(
                views(texts@),
                best,
            ),
            None => r is None,
        },
{
    let mut best: Option<(usize, usize)> = None;
    let mut i: usize = 0;
    assert(views(names@).take(0) =~= Seq::empty());
    while i < names.len()
        invariant
            0 <= i <= names@.len(),
            match best {
                Some((at, count)) => at < i && most_frequent(
                    views(names@).take(i as int),
                    views(texts@),
                ) == Some(names@[at as int]@) && count == count_text(
                    views(texts@),
                    names@[at as int]@,
                ),
                None => most_frequent(views(names@).take(i as int), views(texts@)) is None,
            },
        decreases names@.len() - i,
    {
        proof {
            let next = views(names@).take(i + 1);
            assert(next.drop_last() =~= views(names@).take(i as int));
            assert(next.last() == names@[i as int]@);
        }
        let count: usize = occurrences(texts, names[i].as_str());
        best = match best {
            Some((at, most)) => {
                if count > most || (count == most && text_comparison(
                    names[i].as_str(),
                    names[at].as_str(),
                ) < 0) {
                    Some((i, count))
                } else {
                    Some((at, most))
                }
            },
            None => Some((i, count)),
        };
        i = i + 1;
    }
    assert(views(names@).take(names@.len() as int) =~= views(names@));
    match best {
        Some((at, count)) => Some((names[at].clone(), count)),
        None => None,
    }
}

// ---------------------------------------------------------------------------
// Inversions
// ---------------------------------------------------------------------------

/// The game at `j` stands below the one at `i` although its index is clearly higher.
pub open spec fn is_inversion(seen: Seq<Option<int>>, i: int, j: int) -> bool {
    seen[i] is Some && seen[j] is Some && seen[j]->0 - seen[i]->0 > MAX_UNEXPLAINED_POINTS
}

/// The inversions of the game at `i` with later ones before `upto`.
pub open spec fn inversions_of(seen: Seq<Option<int>>, i: int, upto: int) -> nat
    decreases upto - i,
{
    if upto <= i + 1 {
        0
    } else {
        inversions_of(seen, i, upto - 1) + (if is_inversion(seen, i, upto - 1) {
            1nat
        } else {
            0
        })
    }
}

/// A place that a game holds for a reason other than its score.
pub open spec fn is_explained(row: AuditRow) -> bool {
    row.slot_reason is Diversity || row.slot_reason is Explore
}

/// The inversions of the games before `n` whose place is, or is not, explained.
pub open spec fn inversions_before(
    rows: Seq<AuditRow>,
    seen: Seq<Option<int>>,
    explained: bool,
    n: int,
) -> nat
    decreases n,
{
    if n <= 0 {
        0
    } else {
        inversions_before(rows, seen, explained, n - 1) + (if is_explained(rows[n - 1])
            == explained {
            inversions_of(seen, n - 1, seen.len() as int)
        } else {
            0
        })
    }
}

/// The games before `n` that stand above a clearly better one.
pub open spec fn promoted_before(rows: Seq<AuditRow>, seen: Seq<Option<int>>, n: int) -> Seq<i64>
    decreases n,
{
    if n <= 0 {
        Seq::empty()
    } else {
        let front = promoted_before(rows, seen, n - 1);
        if inversions_of(seen, n - 1, seen.len() as int) > 0 {
            front.push(rows[n - 1].app_id as i64)
        } else {
            front
        }
    }
}

proof fn lemma_inversions_bounded(seen: Seq<Option<int>>, i: int, upto: int)
    requires
        i < upto,
    ensures
        inversions_of(seen, i, upto) <= upto - i - 1,
    decreases upto - i,
{
    if upto > i + 1 {
        lemma_inversions_bounded(seen, i, upto - 1);
    }
}

fn count_inversions(seen: &Vec<Option<u8>>, i: usize) -> (r: usize)
    requires
        i < seen@.len(),
    ensures
        r == inversions_of(as_ints(seen@), i as int, seen@.len() as int),
        r < seen@.len(),
{
    let ghost view = as_ints(seen@);
    let mut count: usize = 0;
    let n: usize = seen.len();
    let mut j: usize = i + 1;
    while j < n
        invariant
            i < j <= n == seen@.len(),
            view == as_ints(seen@),
            count <= j - i - 1,
            count == inversions_of(view, i as int, j as int),
        decreases n - j,
    {
        proof {
            assert(view[i as int] == (match seen@[i as int] {
                Some(x) => Some(x as int),
                None => None,
            }));
            assert(view[j as int] == (match seen@[j as int] {
                Some(x) => Some(x as int),
                None => None,
            }));
        }
        if let Some(promoted) = seen[i] {
            if let Some(stronger) = seen[j] {
                if stronger > promoted && stronger - promoted > MAX_UNEXPLAINED_POINTS {
                    count = count + 1;
                }
            }
        }
        j = j + 1;
    }
    count
}

// ---------------------------------------------------------------------------
// The summary
// ---------------------------------------------------------------------------

/// How varied the first places of a ranking are.
#[derive(Debug)]
pub struct DiversityAudit {
    pub top_count: usize,
    pub pool_known_mode_families: usize,
    pub top_known_mode_families: usize,
    pub top_known_mode_items: usize,
    pub top_largest_mode: Option<String>,
    pub top_largest_mode_count: usize,
    pub mmr_inversion_pairs_over_3_points: usize,
    pub mmr_inversion_promoted_items: usize,
    pub mmr_inversion_pairs_with_reason: usize,
    pub mmr_inversion_pairs_missing_reason: usize,
}

impl DiversityAudit {
    pub open spec fn audits(self, rows: Seq<AuditRow>) -> bool {
        let top20 = first_rows(rows, QUALITY_GATE_TOP);
        let m = top20.len() as int;
        let pool = modes_before(rows, rows.len() as int);
        let modes = modes_before(rows, m);
        let seen = shown_indices(top20);
        let best = most_frequent(distinct(modes), modes);
        let promoted = promoted_before(rows, seen, m);
        &&& self.top_count == m
        &&& self.pool_known_mode_families == distinct(pool).len()
        &&& self.top_known_mode_families == distinct(modes).len()
        &&& self.top_known_mode_items == modes.len()
        &&& opt_view(self.top_largest_mode) == best
        &&& self.top_largest_mode_count == (match best {
            Some(mode) => count_text(modes, mode),
            None => 0,
        })
        &&& self.mmr_inversion_promoted_items == distinct_before(promoted, promoted.len() as int)
        &&& self.mmr_inversion_pairs_with_reason == inversions_before(rows, seen, true, m)
        &&& self.mmr_inversion_pairs_missing_reason == inversions_before(rows, seen, false, m)
        &&& self.mmr_inversion_pairs_over_3_points == self.mmr_inversion_pairs_with_reason
            + self.mmr_inversion_pairs_missing_reason
    }
}

pub fn summarize_diversity(rows: &Vec<AuditRow>) -> (r: DiversityAudit)
    ensures
        r.audits(rows@),
{
    let m: usize = if rows.len() <= QUALITY_GATE_TOP {
        rows.len()
    } else {
        QUALITY_GATE_TOP
    };
    assert(rows@.take(rows@.len() as int) =~= rows@);
    let pool = distinct_texts(&first_modes(rows, rows.len()));
    let modes = first_modes(rows, m);
    let families = distinct_texts(&modes);
    proof {
        assert(views(pool@).len() == pool@.len());
        assert(views(modes@).len() == modes@.len());
        assert(views(families@).len() == families@.len());
    }
    let seen = visible_indices(rows, m);
    let ghost view = as_ints(seen@);
    let mut with_reason: usize = 0;
    let mut missing: usize = 0;
    let mut promoted: Vec<i64> = Vec::new();
    let mut i: usize = 0;
    while i < m
        invariant
            0 <= i <= m <= rows@.len(),
            m <= QUALITY_GATE_TOP,
            seen@.len() == m,
            view == as_ints(seen@),
            view.len() == m,
            with_reason <= i * 20,
            missing <= i * 20,
            with_reason == inversions_before(rows@, view, true, i as int),
            missing == inversions_before(rows@, view, false, i as int),
            promoted@ == promoted_before(rows@, view, i as int),
        decreases m - i,
    {
        let count: usize = count_inversions(&seen, i);
        if count > 0 {
            promoted.push(rows[i].app_id as i64);
        }
        match rows[i].slot_reason {
            SlotReason::Base => {
                missing = missing + count;
            },
            _ => {
                with_reason = with_reason + count;
            },
        }
        i = i + 1;
    }
    let (top_largest_mode, top_largest_mode_count) = match find_most_frequent(&families, &modes) {
        Some((mode, count)) => (Some(mode), count),
        None => (None, 0),
    };
    DiversityAudit {
        top_count: m,
        pool_known_mode_families: pool.len(),
        top_known_mode_families: families.len(),
        top_known_mode_items: modes.len(),
        top_largest_mode,
        top_largest_mode_count,
        mmr_inversion_pairs_over_3_points: with_reason + missing,
        mmr_inversion_promoted_items: tally(&promoted).distinct,
        mmr_inversion_pairs_with_reason: with_reason,
        mmr_inversion_pairs_missing_reason: missing,
    }
}

// ---------------------------------------------------------------------------
// Evidence
// ---------------------------------------------------------------------------

/// The identifiers that the first `n` games cite.
pub open spec fn cited_before(rows: Seq<AuditRow>, n: int) -> Seq<Seq<char>>
    decreases n,
{
    if n <= 0 {
        Seq::empty()
    } else {
        cited_before(rows, n - 1) + views(rows[n - 1].evidence_ids@)
    }
}

/// Those of the texts that are not available.
pub open spec fn missing_from(texts: Seq<Seq<char>>, available: Seq<Seq<char>>) -> Seq<Seq<char>>
    decreases texts.len(),
{
    if texts.len() == 0 {
        Seq::empty()
    } else {
        let front = missing_from(texts.drop_last(), available);
        if available.contains(texts.last()) {
            front
        } else {
            front.push(texts.last())
        }
    }
}

proof fn lemma_missing_members(texts: Seq<Seq<char>>, available: Seq<Seq<char>>)
    ensures
        forall|t: Seq<char>| #[trigger]
            missing_from(texts, available).contains(t) <==> texts.contains(t)
                && !available.contains(t),
    decreases texts.len(),
{
    if texts.len() > 0 {
        let front = texts.drop_last();
        let last = texts.last();
        lemma_missing_members(front, available);
        let out = missing_from(texts, available);
        let inner = missing_from(front, available);
        assert forall|t: Seq<char>| #[trigger] out.contains(t) <==> texts.contains(t)
            && !available.contains(t) by {
            assert(texts.contains(t) <==> front.contains(t) || t == last) by {
                if texts.contains(t) && t != last {
                    let i = choose|i: int| 0 <= i < texts.len() && texts[i] == t;
                    assert(front[i] == t);
                }
                if front.contains(t) {
                    let i = choose|i: int| 0 <= i < front.len() && front[i] == t;
                    assert(texts[i] == t);
                }
                if t == last {
                    assert(texts[texts.len() - 1] == t);
                }
            }
            if !available.contains(last) {
                assert(out == inner.push(last));
                if inner.contains(t) {
                    let i = choose|i: int| 0 <= i < inner.len() && inner[i] == t;
                    assert(out[i] == t);
                }
                if t == last {
                    assert(out[inner.len() as int] == t);
                }
                if out.contains(t) && t != last {
                    let i = choose|i: int| 0 <= i < out.len() && out[i] == t;
                    assert(inner[i] == t);
                }
            }
        }
    }
}

/// The cited identifiers that cannot be looked up, in order, each once.
pub open spec fn unresolved(cited: Seq<Seq<char>>, available: Seq<Seq<char>>) -> Seq<Seq<char>> {
    sorted_texts(missing_from(cited, available))
}

/// Each identifier that is cited either can be looked up or is counted as unresolved, never
/// both; none is counted twice, and no more are unresolved than are cited.
pub proof fn lemma_evidence_adds_up(cited: Seq<Seq<char>>, available: Seq<Seq<char>>)
    ensures
        strictly_sorted(unresolved(cited, available)),
        forall|t: Seq<char>| #[trigger]
            unresolved(cited, available).contains(t) <==> cited.contains(t) && !available.contains(
                t,
            ),
        unresolved(cited, available).len() <= distinct(cited).len(),
{
    let missing = missing_from(cited, available);
    let list = unresolved(cited, available);
    let all = distinct(cited);
    lemma_missing_members(cited, available);
    lemma_sorted_texts(missing);
    lemma_distinct_keys(cited);
    assert(list.no_duplicates()) by {
        assert forall|i: int, j: int| 0 <= i < list.len() && 0 <= j < list.len() && i
            != j implies list[i] != list[j] by {
            if i < j {
                assert(text_order(list[i], list[j]) < 0);
                lemma_text_order_antisymmetric(list[i], list[j]);
            } else {
                assert(text_order(list[j], list[i]) < 0);
                lemma_text_order_antisymmetric(list[j], list[i]);
            }
        }
    }
    list.unique_seq_to_set();
    all.unique_seq_to_set();
    assert(list.to_set().subset_of(all.to_set())) by {
        assert forall|t: Seq<char>| list.to_set().contains(t) implies all.to_set().contains(t) by {
            assert(list.contains(t));
            assert(missing.contains(t));
            assert(cited.contains(t));
            assert(all.contains(t));
        }
    }
    vstd::set_lib::lemma_len_subset(list.to_set(), all.to_set());
}

/// What the explanations of a ranking cite.
#[derive(Debug)]
pub struct EvidenceAudit {
    pub referenced_count: usize,
    pub unique_referenced_count: usize,
    pub resolvable_count: usize,
    pub unresolved_count: usize,
    pub unresolved_ids: Vec<String>,
    pub unresolved_ids_truncated: usize,
}

impl EvidenceAudit {
    pub open spec fn audits(self, rows: Seq<AuditRow>, available: Seq<Seq<char>>) -> bool {
        let cited = cited_before(rows, rows.len() as int);
        let list = unresolved(cited, available);
        &&& self.referenced_count == cited.len()
        &&& self.unique_referenced_count == distinct(cited).len()
        &&& self.unresolved_count == list.len()
        &&& self.resolvable_count == distinct(cited).len() - list.len()
        &&& views(self.unresolved_ids@) == (if list.len() <= MAX_UNRESOLVED_EVIDENCE_ID_SAMPLES {
            list
        } else {
            list.take(MAX_UNRESOLVED_EVIDENCE_ID_SAMPLES as int)
        })
        &&& self.unresolved_ids_truncated == list.len() - self.unresolved_ids@.len()
    }
}

fn collect_cited(rows: &Vec<AuditRow>) -> (r: Vec<String>)
    ensures
        views(r@) == cited_before(rows@, rows@.len() as int),
{
    let mut out: Vec<String> = Vec::new();
    let mut i: usize = 0;
    assert(views(out@) =~= Seq::empty());
    while i < rows.len()
        invariant
            0 <= i <= rows@.len(),
            views(out@) == cited_before(rows@, i as int),
        decreases rows@.len() - i,
    {
        let ghost before = views(out@);
        let ids = &rows[i].evidence_ids;
        let mut j: usize = 0;
        assert(before + views(ids@).take(0) =~= before);
        while j < ids.len()
            invariant
                0 <= j <= ids@.len(),
                views(out@) == before + views(ids@).take(j as int),
            decreases ids@.len() - j,
        {
            let id = ids[j].clone();
            proof {
                assert(views(out@.push(id)) =~= views(out@).push(id@));
                assert(views(ids@).take(j + 1) =~= views(ids@).take(j as int).push(ids@[j as int]@));
                assert((before + views(ids@).take(j as int)).push(id@) =~= before + views(
                    ids@,
                ).take(j as int).push(id@));
            }
            out.push(id);
            j = j + 1;
        }
        assert(views(ids@).take(ids@.len() as int) =~= views(ids@));
        i = i + 1;
    }
    out
}

fn collect_missing(texts: &Vec<String>, available: &Vec<String>) -> (r: Vec<String>)
    ensures
        views(r@) == missing_from(views(texts@), views(available@)),
{
    let mut out: Vec<String> = Vec::new();
    let mut i: usize = 0;
    assert(views(texts@).take(0) =~= Seq::empty());
    assert(views(out@) =~= Seq::empty());
    while i < texts.len()
        invariant
            0 <= i <= texts@.len(),
            views(out@) == missing_from(views(texts@).take(i as int), views(available@)),
        decreases texts@.len() - i,
    {
        proof {
            let next = views(texts@).take(i + 1);
            assert(next.drop_last() =~= views(texts@).take(i as int));
            assert(next.last() == texts@[i as int]@);
        }
        if !list_contains(available, texts[i].as_str()) {
            let text = texts[i].clone();
            proof {
                assert(views(out@.push(text)) =~= views(out@).push(text@));
            }
            out.push(text);
        }
        i = i + 1;
    }
    assert(views(texts@).take(texts@.len() as int) =~= views(texts@));
    out
}

/// Audits what the explanations cite against what can be looked up.
pub fn summarize_evidence(rows: &Vec<AuditRow>, available: &Vec<String>) -> (r: EvidenceAudit)
    ensures
        r.audits(rows@, views(available@)),
        r.resolvable_count + r.unresolved_count == r.unique_referenced_count,
{
    let cited = collect_cited(rows);
    let unique = distinct_texts(&cited);
    let mut unresolved_ids = sort_texts(&collect_missing(&cited, available));
    let ghost list = views(unresolved_ids@);
    proof {
        assert(views(cited@).len() == cited@.len());
        assert(views(unique@).len() == unique@.len());
        assert(list.len() == unresolved_ids@.len());
        lemma_evidence_adds_up(views(cited@), views(available@));
    }
    let unresolved_count: usize = unresolved_ids.len();
    let mut truncated: usize = 0;
    if unresolved_count > MAX_UNRESOLVED_EVIDENCE_ID_SAMPLES {
        truncated = unresolved_count - MAX_UNRESOLVED_EVIDENCE_ID_SAMPLES;
        let ghost before = unresolved_ids@;
        unresolved_ids.truncate(MAX_UNRESOLVED_EVIDENCE_ID_SAMPLES);
        proof {
            assert(views(unresolved_ids@) =~= list.take(MAX_UNRESOLVED_EVIDENCE_ID_SAMPLES as int));
        }
    }
    EvidenceAudit {
        referenced_count: cited.len(),
        unique_referenced_count: unique.len(),
        resolvable_count: unique.len() - unresolved_count,
        unresolved_count,
        unresolved_ids,
        unresolved_ids_truncated: truncated,
    }
}

} // verus!
