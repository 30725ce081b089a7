//! How judgments are split into folds: all judgments of a persona, or of a game, go into
//! one fold, and the folds are of nearly equal size.

use vstd::prelude::*;

use crate::dbtool::golden::{
    distinct, distinct_texts, GoldenLabel, DETERMINISTIC_SEED, FOLD_COUNT,
};
use crate::hashing::{fnv_bytes, fnv_fold, FNV_BASIS};
use crate::numbers::{decimal, u64_decimal};
use crate::sort::{
    lemma_text_order_antisymmetric, lemma_text_order_transitive, text_comparison, text_order,
};
use crate::text::{join2, views};

verus! {

/// What is held out together.
#[derive(Debug, Clone, Copy, PartialEq, Eq, Structural)]
pub enum Holdout {
    Persona,
    Game,
}

impl Holdout {
    pub fn strategy(self) -> (r: &'static str)
        ensures
            r@ == (match self {
                Holdout::Persona => "persona_holdout"@,
                Holdout::Game => "game_holdout"@,
            }),
    {
        match self {
            Holdout::Persona => "persona_holdout",
            Holdout::Game => "game_holdout",
        }
    }
}

/// Where the hash of a fold key starts.
pub const FOLD_BASIS: u64 = 0x879d_fe86_fd76_4249;

/// The hash by which keys are spread.
pub open spec fn fold_hash(text: Seq<char>) -> u64 {
    fnv_fold(FOLD_BASIS, vstd::utf8::encode_utf8(text))
}

/// The basis is that of the hash function, salted with the seed.
pub proof fn lemma_fold_basis_is_seeded()
    ensures
        FOLD_BASIS == FNV_BASIS ^ DETERMINISTIC_SEED,
{
    assert(0x879d_fe86_fd76_4249u64 == 0xcbf2_9ce4_8422_2325u64 ^ 0x4c6f_6262_7954_616cu64)
        by (bit_vector);
}

pub fn stable_hash(value: &str) -> (r: u64)
    ensures
        r == fold_hash(value@),
{
    fnv_bytes(FOLD_BASIS, value.as_bytes())
}

/// The key that is held out as a whole.
pub open spec fn fold_key(label: GoldenLabel, holdout: Holdout) -> Seq<char> {
    match holdout {
        Holdout::Persona => "persona:"@ + label.persona_id@,
        Holdout::Game => "game:"@ + decimal(label.app_id as nat),
    }
}

pub open spec fn fold_keys(labels: Seq<GoldenLabel>, holdout: Holdout) -> Seq<Seq<char>> {
    labels.map_values(|label: GoldenLabel| fold_key(label, holdout))
}

/// The order in which keys are dealt out: by hash, and by text where hashes meet.
pub open spec fn dealt_before(a: Seq<char>, b: Seq<char>) -> bool {
    fold_hash(a) < fold_hash(b) || (fold_hash(a) == fold_hash(b) && text_order(a, b) < 0)
}

/// How many of the keys are dealt out before this one.
pub open spec fn turn(keys: Seq<Seq<char>>, key: Seq<char>) -> nat
    decreases keys.len(),
{
    if keys.len() == 0 {
        0
    } else {
        turn(keys.drop_last(), key) + (if dealt_before(keys.last(), key) {
            1nat
        } else {
            0
        })
    }
}

/// The fold of a key: the keys are dealt out to the folds in turn.
pub open spec fn fold_of(keys: Seq<Seq<char>>, key: Seq<char>) -> int {
    (turn(keys, key) % 5) as int
}

fn key_of(label: &GoldenLabel, holdout: Holdout) -> (r: String)
    ensures
        r@ == fold_key(*label, holdout),
{
    match holdout {
        Holdout::Persona => join2("persona:", label.persona_id.as_str()),
        Holdout::Game => join2("game:", u64_decimal(label.app_id as u64).as_str()),
    }
}

fn key_list(labels: &Vec<GoldenLabel>, holdout: Holdout) -> (r: Vec<String>)
    ensures
        views(r@) == fold_keys(labels@, holdout),
        r@.len() == labels@.len(),
{
    let mut out: Vec<String> = Vec::new();
    let mut i: usize = 0;
    while i < labels.len()
        invariant
            0 <= i <= labels@.len(),
            out@.len() == i,
            forall|j: int| 0 <= j < i ==> (#[trigger] out@[j])@ == fold_key(labels@[j], holdout),
        decreases labels@.len() - i,
    {
        out.push(key_of(&labels[i], holdout));
        i = i + 1;
    }
    assert(views(out@) =~= fold_keys(labels@, holdout));
    out
}

fn turn_of(keys: &Vec<String>, hashes: &Vec<u64>, key: &str) -> (r: usize)
    requires
        hashes@.len() == keys@.len(),
        forall|i: int| 0 <= i < keys@.len() ==> #[trigger] hashes@[i] == fold_hash(keys@[i]@),
    ensures
        r == turn(views(keys@), key@),
{
    let hash: u64 = stable_hash(key);
    let mut count: usize = 0;
    let mut i: usize = 0;
    assert(views(keys@).take(0) =~= Seq::empty());
    while i < keys.len()
        invariant
            0 <= i <= keys@.len(),
            hash == fold_hash(key@),
            hashes@.len() == keys@.len(),
            forall|j: int| 0 <= j < keys@.len() ==> #[trigger] hashes@[j] == fold_hash(keys@[j]@),
            count == turn(views(keys@).take(i as int), key@),
            count <= i,
        decreases keys@.len() - i,
    {
        proof {
            let next = views(keys@).take(i + 1);
            assert(next.drop_last() =~= views(keys@).take(i as int));
            assert(next.last() == keys@[i as int]@);
        }
        if hashes[i] < hash || (hashes[i] == hash && text_comparison(keys[i].as_str(), key) < 0) {
            count = count + 1;
        }
        i = i + 1;
    }
    assert(views(keys@).take(keys@.len() as int) =~= views(keys@));
    count
}

/// The fold of each judgment.
pub fn fold_assignments(labels: &Vec<GoldenLabel>, holdout: Holdout) -> (r: Vec<usize>)
    ensures
        r@.len() == labels@.len(),
        forall|i: int|
            0 <= i < r@.len() ==> #[trigger] r@[i] == fold_of(
                distinct(fold_keys(labels@, holdout)),
                fold_key(labels@[i], holdout),
            ),
{
    let all = key_list(labels, holdout);
    let keys = distinct_texts(&all);
    let mut hashes: Vec<u64> = Vec::new();
    let mut k: usize = 0;
    while k < keys.len()
        invariant
            0 <= k <= keys@.len(),
            hashes@.len() == k,
            forall|j: int| 0 <= j < k ==> #[trigger] hashes@[j] == fold_hash(keys@[j]@),
        decreases keys@.len() - k,
    {
        hashes.push(stable_hash(keys[k].as_str()));
        k = k + 1;
    }
    let mut out: Vec<usize> = Vec::new();
    let mut i: usize = 0;
    while i < labels.len()
        invariant
            0 <= i <= labels@.len(),
            all@.len() == labels@.len(),
            views(all@) == fold_keys(labels@, holdout),
            views(keys@) == distinct(fold_keys(labels@, holdout)),
            hashes@.len() == keys@.len(),
            forall|j: int| 0 <= j < keys@.len() ==> #[trigger] hashes@[j] == fold_hash(keys@[j]@),
            out@.len() == i,
            forall|j: int|
                0 <= j < i ==> #[trigger] out@[j] == fold_of(
                    distinct(fold_keys(labels@, holdout)),
                    fold_key(labels@[j], holdout),
                ),
        decreases labels@.len() - i,
    {
        proof {
            assert(views(all@)[i as int] == all@[i as int]@);
            assert(fold_keys(labels@, holdout)[i as int] == fold_key(labels@[i as int], holdout));
        }
        out.push(turn_of(&keys, &hashes, all[i].as_str()) % FOLD_COUNT);
        i = i + 1;
    }
    out
}

// ---------------------------------------------------------------------------
// Laws
// ---------------------------------------------------------------------------

/// Judgments of the same persona, or of the same game, are never torn apart.
pub proof fn lemma_folds_keep_entities_together(
    labels: Seq<GoldenLabel>,
    holdout: Holdout,
    folds: Seq<usize>,
    i: int,
    j: int,
)
    requires
        folds.len() == labels.len(),
        forall|k: int|
            0 <= k < folds.len() ==> #[trigger] folds[k] == fold_of(
                distinct(fold_keys(labels, holdout)),
                fold_key(labels[k], holdout),
            ),
        0 <= i < labels.len(),
        0 <= j < labels.len(),
        fold_key(labels[i], holdout) == fold_key(labels[j], holdout),
    ensures
        folds[i] == folds[j],
        folds[i] < FOLD_COUNT,
{
}

/// How many of the keys `of` go into a fold when `keys` are dealt out.
pub open spec fn in_fold(keys: Seq<Seq<char>>, of: Seq<Seq<char>>, fold: int) -> nat
    decreases of.len(),
{
    if of.len() == 0 {
        0
    } else {
        in_fold(keys, of.drop_last(), fold) + (if fold_of(keys, of.last()) == fold {
            1nat
        } else {
            0
        })
    }
}

proof fn lemma_turn_remove(keys: Seq<Seq<char>>, at: int, key: Seq<char>)
    requires
        0 <= at < keys.len(),
    ensures
        turn(keys, key) == turn(keys.remove(at), key) + (if dealt_before(keys[at], key) {
            1nat
        } else {
            0
        }),
    decreases keys.len(),
{
    if at == keys.len() - 1 {
        assert(keys.remove(at) =~= keys.drop_last());
    } else {
        lemma_turn_remove(keys.drop_last(), at, key);
        assert(keys.remove(at).drop_last() =~= keys.drop_last().remove(at));
        assert(keys.remove(at).last() == keys.last());
    }
}

proof fn lemma_in_fold_remove(keys: Seq<Seq<char>>, of: Seq<Seq<char>>, at: int, fold: int)
    requires
        0 <= at < of.len(),
    ensures
        in_fold(keys, of, fold) == in_fold(keys, of.remove(at), fold) + (if fold_of(keys, of[at])
            == fold {
            1nat
        } else {
            0
        }),
    decreases of.len(),
{
    if at == of.len() - 1 {
        assert(of.remove(at) =~= of.drop_last());
    } else {
        lemma_in_fold_remove(keys, of.drop_last(), at, fold);
        assert(of.remove(at).drop_last() =~= of.drop_last().remove(at));
        assert(of.remove(at).last() == of.last());
    }
}

/// Dealing out `keys` or `fewer` makes no difference to the keys in `of`, when each of them
/// has the same turn in both.
proof fn lemma_in_fold_same(
    keys: Seq<Seq<char>>,
    fewer: Seq<Seq<char>>,
    of: Seq<Seq<char>>,
    fold: int,
)
    requires
        forall|i: int| 0 <= i < of.len() ==> turn(keys, #[trigger] of[i]) == turn(fewer, of[i]),
    ensures
        in_fold(keys, of, fold) == in_fold(fewer, of, fold),
    decreases of.len(),
{
    if of.len() > 0 {
        assert(turn(keys, of[of.len() - 1]) == turn(fewer, of[of.len() - 1]));
        assert forall|i: int| 0 <= i < of.drop_last().len() implies turn(
            keys,
            #[trigger] of.drop_last()[i],
        ) == turn(fewer, of.drop_last()[i]) by {
            assert(of[i] == of.drop_last()[i]);
        }
        lemma_in_fold_same(keys, fewer, of.drop_last(), fold);
    }
}

proof fn lemma_dealt_order(a: Seq<char>, b: Seq<char>)
    ensures
        !dealt_before(a, a),
        dealt_before(a, b) ==> !dealt_before(b, a),
        a != b ==> dealt_before(a, b) || dealt_before(b, a),
{
    lemma_text_order_antisymmetric(a, b);
    lemma_text_order_antisymmetric(a, a);
}

proof fn lemma_dealt_transitive(a: Seq<char>, b: Seq<char>, c: Seq<char>)
    requires
        dealt_before(a, b),
        dealt_before(b, c),
    ensures
        dealt_before(a, c),
{
    if fold_hash(a) == fold_hash(b) && fold_hash(b) == fold_hash(c) {
        lemma_text_order_transitive(a, b, c);
    }
}

/// Some key is dealt out after all the others.
proof fn lemma_last_dealt(keys: Seq<Seq<char>>) -> (at: int)
    requires
        keys.len() > 0,
        keys.no_duplicates(),
    ensures
        0 <= at < keys.len(),
        forall|i: int| 0 <= i < keys.len() && i != at ==> dealt_before(#[trigger] keys[i], keys[at]),
    decreases keys.len(),
{
    if keys.len() == 1 {
        0
    } else {
        let front = keys.drop_last();
        assert(front.no_duplicates());
        let before = lemma_last_dealt(front);
        let last = keys.len() - 1;
        assert(keys[before] != keys[last]);
        lemma_dealt_order(keys[before], keys[last]);
        if dealt_before(keys[before], keys[last]) {
            assert forall|i: int| 0 <= i < keys.len() && i != last implies dealt_before(
                #[trigger] keys[i],
                keys[last],
            ) by {
                if i != before {
                    assert(front[i] == keys[i]);
                    lemma_dealt_transitive(keys[i], keys[before], keys[last]);
                }
            }
            last
        } else {
            assert forall|i: int| 0 <= i < keys.len() && i != before implies dealt_before(
                #[trigger] keys[i],
                keys[before],
            ) by {
                if i != last {
                    assert(front[i] == keys[i]);
                }
            }
            before
        }
    }
}

proof fn lemma_turn_is_all(keys: Seq<Seq<char>>, key: Seq<char>)
    requires
        forall|i: int| 0 <= i < keys.len() ==> dealt_before(#[trigger] keys[i], key),
    ensures
        turn(keys, key) == keys.len(),
    decreases keys.len(),
{
    if keys.len() > 0 {
        assert(dealt_before(keys[keys.len() - 1], key));
        assert forall|i: int| 0 <= i < keys.drop_last().len() implies dealt_before(
            #[trigger] keys.drop_last()[i],
            key,
        ) by {
            assert(keys[i] == keys.drop_last()[i]);
        }
        lemma_turn_is_all(keys.drop_last(), key);
    }
}

/// Dealing out distinct keys fills the folds evenly: of `n` keys each fold gets one fifth,
/// and the first folds share what is left over, one each.
pub proof fn lemma_folds_are_balanced(keys: Seq<Seq<char>>, fold: int)
    requires
        keys.no_duplicates(),
        0 <= fold < 5,
    ensures
        in_fold(keys, keys, fold) == (keys.len() + 4 - fold) / 5,
    decreases keys.len(),
{
    if keys.len() > 0 {
        let at = lemma_last_dealt(keys);
        let last = keys[at];
        let rest = keys.remove(at);
        assert(rest.no_duplicates()) by {
            assert forall|i: int, j: int| 0 <= i < rest.len() && 0 <= j < rest.len() && i
                != j implies rest[i] != rest[j] by {
                let x = if i < at {
                    i
                } else {
                    i + 1
                };
                let y = if j < at {
                    j
                } else {
                    j + 1
                };
                assert(rest[i] == keys[x] && rest[j] == keys[y]);
            }
        }
        lemma_folds_are_balanced(rest, fold);
        assert forall|i: int| 0 <= i < rest.len() implies dealt_before(#[trigger] rest[i], last) by {
            let x = if i < at {
                i
            } else {
                i + 1
            };
            assert(rest[i] == keys[x]);
        }
        lemma_turn_is_all(rest, last);
        lemma_turn_remove(keys, at, last);
        lemma_dealt_order(last, last);
        assert(turn(keys, last) == keys.len() - 1);
        assert forall|i: int| 0 <= i < rest.len() implies turn(keys, #[trigger] rest[i]) == turn(
            rest,
            rest[i],
        ) by {
            lemma_turn_remove(keys, at, rest[i]);
            lemma_dealt_order(rest[i], last);
        }
        lemma_in_fold_same(keys, rest, rest, fold);
        lemma_in_fold_remove(keys, keys, at, fold);
    }
}

/// The list of distinct keys holds none twice and leaves none out.
pub proof fn lemma_distinct_keys(texts: Seq<Seq<char>>)
    ensures
        distinct(texts).no_duplicates(),
        forall|t: Seq<char>| #[trigger] distinct(texts).contains(t) <==> texts.contains(t),
    decreases texts.len(),
{
    if texts.len() > 0 {
        let front = texts.drop_last();
        let last = texts.last();
        lemma_distinct_keys(front);
        let d = distinct(texts);
        assert forall|t: Seq<char>| #[trigger] d.contains(t) <==> texts.contains(t) by {
            assert(texts.contains(t) <==> front.contains(t) || t == last) by {
                if texts.contains(t) && t != last {
                    let i = choose|i: int| 0 <= i < texts.len() && texts[i] == t;
                    assert(front[i] == t);
                }
                if front.contains(t) {
                    let i = choose|i: int| 0 <= i < front.len() && front[i] == t;
                    assert(texts[i] == t);
                }
                if t == last {
                    assert(texts[texts.len() - 1] == t);
                }
            }
            if !distinct(front).contains(last) {
                assert(d == distinct(front).push(last));
                if distinct(front).contains(t) {
                    let i = choose|i: int| 0 <= i < distinct(front).len() && distinct(front)[i] == t;
                    assert(d[i] == t);
                }
                if t == last {
                    assert(d[d.len() - 1] == t);
                }
                if d.contains(t) && t != last {
                    let i = choose|i: int| 0 <= i < d.len() && d[i] == t;
                    assert(distinct(front)[i] == t);
                }
            }
        }
    }
}

} // verus!
