//! Lists of texts in order, each text once.

use vstd::prelude::*;

use crate::sort::{
    lemma_text_order_antisymmetric, lemma_text_order_transitive, text_comparison, text_order,
};
use crate::text::views;

verus! {

/// A sorted list with a text put in its place, unless the list has it already.
pub open spec fn insert_text(list: Seq<Seq<char>>, text: Seq<char>) -> Seq<Seq<char>>
    decreases list.len(),
{
    if list.len() == 0 || text_order(list.last(), text) < 0 {
        list.push(text)
    } else if list.last() == text {
        list
    } else {
        insert_text(list.drop_last(), text).push(list.last())
    }
}

/// The texts of a list in order, each once.
pub open spec fn sorted_texts(texts: Seq<Seq<char>>) -> Seq<Seq<char>>
    decreases texts.len(),
{
    if texts.len() == 0 {
        Seq::empty()
    } else {
        insert_text(sorted_texts(texts.drop_last()), texts.last())
    }
}

/// Every text stands before every later one in order, and none is equal to another.
pub open spec fn strictly_sorted(list: Seq<Seq<char>>) -> bool {
    forall|i: int, j: int|
        0 <= i < j < list.len() ==> text_order(#[trigger] list[i], #[trigger] list[j]) < 0
}

pub(crate) proof fn lemma_insert_text(list: Seq<Seq<char>>, text: Seq<char>)
    requires
        strictly_sorted(list),
    ensures
        strictly_sorted(insert_text(list, text)),
        forall|t: Seq<char>| #[trigger]
            insert_text(list, text).contains(t) <==> list.contains(t) || t == text,
    decreases list.len(),
{
    let out = insert_text(list, text);
    if list.len() == 0 || text_order(list.last(), text) < 0 {
        assert forall|i: int, j: int| 0 <= i < j < out.len() implies text_order(
            #[trigger] out[i],
            #[trigger] out[j],
        ) < 0 by {
            if j == list.len() && i < list.len() - 1 {
                lemma_text_order_transitive(list[i], list.last(), text);
            }
        }
        assert forall|t: Seq<char>| #[trigger] out.contains(t) <==> list.contains(t) || t == text by {
            if list.contains(t) {
                let i = choose|i: int| 0 <= i < list.len() && list[i] == t;
                assert(out[i] == t);
            }
            if t == text {
                assert(out[list.len() as int] == t);
            }
            if out.contains(t) && t != text {
                let i = choose|i: int| 0 <= i < out.len() && out[i] == t;
                assert(list[i] == t);
            }
        }
    } else if list.last() == text {
        assert(list[list.len() - 1] == text);
    } else {
        let front = list.drop_last();
        let last = list.last();
        assert(strictly_sorted(front));
        lemma_insert_text(front, text);
        lemma_text_order_antisymmetric(last, text);
        let inner = insert_text(front, text);
        assert forall|i: int, j: int| 0 <= i < j < out.len() implies text_order(
            #[trigger] out[i],
            #[trigger] out[j],
        ) < 0 by {
            if j == inner.len() {
                assert(inner.contains(inner[i]));
                if inner[i] != text {
                    assert(front.contains(inner[i]));
                    let k = choose|k: int| 0 <= k < front.len() && front[k] == inner[i];
                    assert(list[k] == inner[i]);
                    assert(list[list.len() - 1] == last);
                }
            }
        }
        assert forall|t: Seq<char>| #[trigger] out.contains(t) <==> list.contains(t) || t == text by {
            assert(list.contains(t) <==> front.contains(t) || t == last) by {
                if list.contains(t) && t != last {
                    let i = choose|i: int| 0 <= i < list.len() && list[i] == t;
                    assert(front[i] == t);
                }
                if front.contains(t) {
                    let i = choose|i: int| 0 <= i < front.len() && front[i] == t;
                    assert(list[i] == t);
                }
                if t == last {
                    assert(list[list.len() - 1] == t);
                }
            }
            assert(out.contains(t) <==> inner.contains(t) || t == last) by {
                if inner.contains(t) {
                    let i = choose|i: int| 0 <= i < inner.len() && inner[i] == t;
                    assert(out[i] == t);
                }
                if t == last {
                    assert(out[inner.len() as int] == t);
                }
                if out.contains(t) && t != last {
                    let i = choose|i: int| 0 <= i < out.len() && out[i] == t;
                    assert(inner[i] == t);
                }
            }
        }
    }
}

/// Sorting texts keeps exactly the texts that were there, each once, in order.
pub proof fn lemma_sorted_texts(texts: Seq<Seq<char>>)
    ensures
        strictly_sorted(sorted_texts(texts)),
        forall|t: Seq<char>| #[trigger] sorted_texts(texts).contains(t) <==> texts.contains(t),
    decreases texts.len(),
{
    if texts.len() > 0 {
        let front = texts.drop_last();
        lemma_sorted_texts(front);
        lemma_insert_text(sorted_texts(front), texts.last());
        assert forall|t: Seq<char>| #[trigger] sorted_texts(texts).contains(t) <==> texts.contains(t) by {
            assert(texts.contains(t) <==> front.contains(t) || t == texts.last()) by {
                if texts.contains(t) && t != texts.last() {
                    let i = choose|i: int| 0 <= i < texts.len() && texts[i] == t;
                    assert(front[i] == t);
                }
                if front.contains(t) {
                    let i = choose|i: int| 0 <= i < front.len() && front[i] == t;
                    assert(texts[i] == t);
                }
                if t == texts.last() {
                    assert(texts[texts.len() - 1] == t);
                }
            }
        }
    }
}

/// Puts a text in its place.
pub fn insert_sorted(list: &mut Vec<String>, text: String)
    ensures
        views(final(list)@) == insert_text(views(old(list)@), text@),
{
    let ghost before = views(list@);
    let mut p: usize = list.len();
    assert(before.take(p as int) =~= before);
    assert(before.skip(p as int) =~= Seq::empty());
    assert(insert_text(before, text@) + Seq::<Seq<char>>::empty() =~= insert_text(before, text@));
    while p > 0
        invariant
            0 <= p <= list@.len(),
            before == views(list@),
            insert_text(before, text@) == insert_text(before.take(p as int), text@) + before.skip(
                p as int,
            ),
        ensures
            0 <= p <= list@.len(),
            before == views(list@),
            insert_text(before, text@) == before.take(p as int).push(text@) + before.skip(p as int),
        decreases p,
    {
        let order: i8 = text_comparison(list[p - 1].as_str(), text.as_str());
        proof {
            lemma_text_order_antisymmetric(list@[p - 1]@, text@);
            assert(before.take(p as int).last() == list@[p - 1]@);
            assert(before.take(p as int).drop_last() =~= before.take(p - 1));
        }
        if order < 0 {
            break ;
        }
        if order == 0 {
            assert(before.take(p as int) + before.skip(p as int) =~= before);
            return ;
        }
        proof {
            let inner = insert_text(before.take(p - 1), text@);
            assert(inner.push(before[p - 1]) + before.skip(p as int) =~= inner + before.skip(p - 1));
        }
        p = p - 1;
    }
    let ghost t = text@;
    let ghost old_list = list@;
    list.insert(p, text);
    proof {
        assert(views(list@) =~= before.take(p as int).push(t) + before.skip(p as int));
    }
}

/// The texts of a list in order, each once.
pub fn sort_texts(texts: &Vec<String>) -> (r: Vec<String>)
    ensures
        views(r@) == sorted_texts(views(texts@)),
{
    let mut out: Vec<String> = Vec::new();
    let mut i: usize = 0;
    assert(views(texts@).take(0) =~= Seq::empty());
    assert(views(out@) =~= Seq::empty());
    while i < texts.len()
        invariant
            0 <= i <= texts@.len(),
            views(out@) == sorted_texts(views(texts@).take(i as int)),
        decreases texts@.len() - i,
    {
        proof {
            let next = views(texts@).take(i + 1);
            assert(next.drop_last() =~= views(texts@).take(i as int));
            assert(next.last() == texts@[i as int]@);
        }
        insert_sorted(&mut out, texts[i].clone());
        i = i + 1;
    }
    assert(views(texts@).take(texts@.len() as int) =~= views(texts@));
    out
}

} // verus!
