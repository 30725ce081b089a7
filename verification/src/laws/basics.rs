//! Texts, numbers and orders.

use std::cmp::Ordering;

use vstd::prelude::*;

use crate::hashing::{fnv_bytes, hash64, u64_hex16, weak_etag};
use crate::laws::feed_order::earlier;
use crate::laws::requests::says;
use crate::numbers::{
    i64_decimal, parse_i64, parse_u64, saturating_difference, saturating_sum, u64_decimal, u64_hex,
};
use crate::score::Score;
use crate::server::feed_query::FeedSortOrder;
use crate::server::ranking::{compare_optional_missing_last, compare_recommendation_score, FeedRow};
use crate::sort::text_comparison;
use crate::text::{
    ascii_lowercase, ascii_uppercase, bool_str, char_is_control, char_is_digit, char_is_hex_digit,
    char_is_whitespace, is_blank, join, list_contains, split, split_on, str_contains,
    str_ends_with, str_starts_with, trim, trim_end, trim_end_char, trim_end_of, trim_start, views,
};

verus! {

// ---------------------------------------------------------------------------
// Characters
// ---------------------------------------------------------------------------

/// White space: the blank, the controls from tab to carriage return, and the other spaces of
/// Unicode.
pub open spec fn is_space(c: char) -> bool {
    let v = c as u32;
    ||| v == 9 || v == 10 || v == 11 || v == 12 || v == 13
    ||| v == 32 || v == 133 || v == 160 || v == 5760
    ||| v == 8192 || v == 8193 || v == 8194 || v == 8195 || v == 8196 || v == 8197
    ||| v == 8198 || v == 8199 || v == 8200 || v == 8201 || v == 8202
    ||| v == 8232 || v == 8233 || v == 8239 || v == 8287 || v == 12288
}

/// Characters are told apart by their numbers.
pub proof fn law_characters(c: char, space: bool, control: bool, digit: bool, hex: bool)
    requires
        call_ensures(char_is_whitespace, (c,), space),
        call_ensures(char_is_control, (c,), control),
        call_ensures(char_is_digit, (c,), digit),
        call_ensures(char_is_hex_digit, (c,), hex),
    ensures
        space == is_space(c),
        control <==> (c as u32) < 32 || 127 <= (c as u32) <= 159,
        digit <==> 48 <= (c as u32) <= 57,
        hex <==> 48 <= (c as u32) <= 57 || 65 <= (c as u32) <= 70 || 97 <= (c as u32) <= 102,
{
}

// ---------------------------------------------------------------------------
// Texts
// ---------------------------------------------------------------------------

proof fn lemma_trim_start(s: Seq<char>) -> (k: int)
    ensures
        0 <= k <= s.len(),
        trim_start(s) == s.skip(k),
        forall|i: int| 0 <= i < k ==> is_space(#[trigger] s[i]),
        k < s.len() ==> !is_space(s[k]),
    decreases s.len(),
{
    if s.len() > 0 && crate::text::is_whitespace(s[0]) {
        let rest = s.drop_first();
        let k = lemma_trim_start(rest);
        assert(rest.skip(k) =~= s.skip(k + 1));
        assert forall|i: int| 0 <= i < k + 1 implies is_space(#[trigger] s[i]) by {
            if i > 0 {
                assert(s[i] == rest[i - 1]);
            }
        }
        if k + 1 < s.len() {
            assert(s[k + 1] == rest[k]);
        }
        k + 1
    } else {
        assert(s.skip(0) =~= s);
        0
    }
}

proof fn lemma_trim_end(s: Seq<char>) -> (k: int)
    ensures
        0 <= k <= s.len(),
        trim_end(s) == s.take(k),
        forall|i: int| k <= i < s.len() ==> is_space(#[trigger] s[i]),
        k > 0 ==> !is_space(s[k - 1]),
    decreases s.len(),
{
    if s.len() > 0 && crate::text::is_whitespace(s.last()) {
        let front = s.drop_last();
        let k = lemma_trim_end(front);
        assert(front.take(k) =~= s.take(k));
        assert forall|i: int| k <= i < s.len() implies is_space(#[trigger] s[i]) by {
            if i < front.len() {
                assert(s[i] == front[i]);
            }
        }
        if k > 0 {
            assert(s[k - 1] == front[k - 1]);
        }
        k
    } else {
        assert(s.take(s.len() as int) =~= s);
        s.len() as int
    }
}

/// What trimming leaves stands in one piece in the text, has no white space at either end, and
/// nothing but white space was around it.
pub proof fn law_trimming_cuts_white_space(s: &str, r: String) -> (at: (int, int))
    requires
        call_ensures(trim, (s,), r),
    ensures
        0 <= at.0 <= at.1 <= s@.len(),
        r@ == s@.subrange(at.0, at.1),
        forall|i: int| 0 <= i < at.0 ==> is_space(#[trigger] s@[i]),
        forall|i: int| at.1 <= i < s@.len() ==> is_space(#[trigger] s@[i]),
        r@.len() > 0 ==> !is_space(r@[0]) && !is_space(r@.last()),
{
    let k = lemma_trim_start(s@);
    let rest = trim_start(s@);
    let m = lemma_trim_end(rest);
    assert(r@ =~= s@.subrange(k, k + m));
    assert forall|i: int| k + m <= i < s@.len() implies is_space(#[trigger] s@[i]) by {
        assert(rest[i - k] == s@[i]);
    }
    if m > 0 {
        assert(r@[0] == s@[k]);
        assert(r@.last() == rest[m - 1]);
    }
    (k, k + m)
}

/// Trimming leaves nothing exactly of a text that holds white space only.
pub(crate) proof fn lemma_blank(s: Seq<char>)
    ensures
        crate::text::trimmed(s).len() == 0 <==> forall|i: int|
            0 <= i < s.len() ==> is_space(#[trigger] s[i]),
{
    let k = lemma_trim_start(s);
    let rest = trim_start(s);
    let m = lemma_trim_end(rest);
    if crate::text::trimmed(s).len() == 0 {
        assert forall|i: int| 0 <= i < s.len() implies is_space(#[trigger] s[i]) by {
            if i >= k {
                assert(rest[i - k] == s[i]);
            }
        }
    } else {
        assert(!is_space(s[k]));
    }
}

/// A text is blank exactly where it holds white space only.
pub proof fn law_blank_texts(s: &str, r: bool)
    requires
        call_ensures(is_blank, (s,), r),
    ensures
        r <==> forall|i: int| 0 <= i < s@.len() ==> is_space(#[trigger] s@[i]),
{
    lemma_blank(s@);
}

/// Only the character that is asked for is cut from the end.
pub proof fn law_ends_are_cut(s: &str, c: char, r: String)
    requires
        call_ensures(trim_end_of, (s, c), r),
    ensures
        r@.len() <= s@.len(),
        r@ == s@.take(r@.len() as int),
        r@.len() > 0 ==> r@.last() != c,
        forall|i: int| r@.len() <= i < s@.len() ==> (#[trigger] s@[i]) == c,
{
    lemma_ends(s@, c);
}

proof fn lemma_ends(s: Seq<char>, c: char)
    ensures
        trim_end_char(s, c).len() <= s.len(),
        trim_end_char(s, c) == s.take(trim_end_char(s, c).len() as int),
        trim_end_char(s, c).len() > 0 ==> trim_end_char(s, c).last() != c,
        forall|i: int| trim_end_char(s, c).len() <= i < s.len() ==> (#[trigger] s[i]) == c,
    decreases s.len(),
{
    if s.len() > 0 && s.last() == c {
        let front = s.drop_last();
        lemma_ends(front, c);
        let n = trim_end_char(s, c).len() as int;
        assert(front.take(n) =~= s.take(n));
        assert forall|i: int| n <= i < s.len() implies (#[trigger] s[i]) == c by {
            if i < front.len() {
                assert(s[i] == front[i]);
            }
        }
    } else {
        assert(s.take(s.len() as int) =~= s);
    }
}

/// Changing case changes the letters of ASCII and nothing else.
pub proof fn law_case_changes_letters(s: &str, lower: String, upper: String, i: int)
    requires
        call_ensures(ascii_lowercase, (s,), lower),
        call_ensures(ascii_uppercase, (s,), upper),
        0 <= i < s@.len(),
    ensures
        lower@.len() == s@.len(),
        upper@.len() == s@.len(),
        65 <= (s@[i] as u32) <= 90 ==> lower@[i] as u32 == s@[i] as u32 + 32,
        !(65 <= (s@[i] as u32) <= 90) ==> lower@[i] == s@[i],
        97 <= (s@[i] as u32) <= 122 ==> upper@[i] as u32 == s@[i] as u32 - 32,
        !(97 <= (s@[i] as u32) <= 122) ==> upper@[i] == s@[i],
{
}

/// A text contains, starts with or ends in another where it is one of its pieces.
pub proof fn law_pieces_of_texts(
    s: &str,
    part: &str,
    inside: bool,
    first: bool,
    last: bool,
)
    requires
        call_ensures(str_contains, (s, part), inside),
        call_ensures(str_starts_with, (s, part), first),
        call_ensures(str_ends_with, (s, part), last),
    ensures
        inside == says(s@, part@),
        first <==> part@.len() <= s@.len() && s@.take(part@.len() as int) == part@,
        last <==> part@.len() <= s@.len() && s@.skip(s@.len() - part@.len()) == part@,
        first ==> inside,
        last ==> inside,
{
    crate::laws::requests::lemma_says(s@, part@);
    if part@.len() <= s@.len() {
        let a = s@.take(part@.len() as int);
        let b = s@.skip(s@.len() - part@.len());
        assert(a =~= s@.subrange(0, part@.len() as int));
        assert(b =~= s@.subrange(s@.len() - part@.len(), s@.len() as int));
        if a == part@ {
            assert(crate::laws::requests::says_at(s@, part@, 0));
        }
        if b == part@ {
            assert(crate::laws::requests::says_at(s@, part@, s@.len() - part@.len()));
        }
    }
}

/// A list holds a text exactly where one of its entries is that text.
pub proof fn law_lists_hold_texts(items: Vec<String>, item: &str, r: bool)
    requires
        call_ensures(list_contains, (&items, item), r),
    ensures
        r <==> exists|i: int| 0 <= i < items@.len() && (#[trigger] items@[i])@ == item@,
{
    let all = views(items@);
    if r {
        let k = choose|k: int| 0 <= k < all.len() && all[k] == item@;
        assert(items@[k]@ == item@);
    }
    if exists|i: int| 0 <= i < items@.len() && (#[trigger] items@[i])@ == item@ {
        let i = choose|i: int| 0 <= i < items@.len() && (#[trigger] items@[i])@ == item@;
        assert(all[i] == item@);
    }
}

/// The parts one behind the other, with a separator between them.
pub open spec fn glued(parts: Seq<Seq<char>>, sep: Seq<char>) -> Seq<char>
    decreases parts.len(),
{
    if parts.len() == 0 {
        Seq::empty()
    } else if parts.len() == 1 {
        parts[0]
    } else {
        parts[0] + sep + glued(parts.drop_first(), sep)
    }
}

proof fn lemma_glued_push(parts: Seq<Seq<char>>, sep: Seq<char>, part: Seq<char>)
    requires
        parts.len() > 0,
    ensures
        glued(parts.push(part), sep) == glued(parts, sep) + sep + part,
    decreases parts.len(),
{
    let all = parts.push(part);
    if parts.len() == 1 {
        assert(all.drop_first() =~= seq![part]);
        assert(glued(seq![part], sep) == part);
        assert(glued(all, sep) =~= parts[0] + sep + part);
    } else {
        let rest = parts.drop_first();
        lemma_glued_push(rest, sep, part);
        assert(all.drop_first() =~= rest.push(part));
        assert(glued(all, sep) =~= glued(parts, sep) + sep + part);
    }
}

pub(crate) proof fn lemma_joined(parts: Seq<Seq<char>>, sep: Seq<char>)
    ensures
        crate::text::joined(parts, sep) == glued(parts, sep),
    decreases parts.len(),
{
    if parts.len() > 1 {
        let front = parts.drop_last();
        lemma_joined(front, sep);
        lemma_glued_push(front, sep, parts.last());
        assert(front.push(parts.last()) =~= parts);
    }
}

/// Joining puts the parts one behind the other.
pub proof fn law_parts_are_joined(parts: Vec<String>, sep: &str, r: String)
    requires
        call_ensures(join, (&parts, sep), r),
    ensures
        r@ == glued(views(parts@), sep@),
{
    lemma_joined(views(parts@), sep@);
}

proof fn lemma_split_parts(s: Seq<char>, sep: char)
    ensures
        split_on(s, sep).len() >= 1,
        glued(split_on(s, sep), seq![sep]) == s,
        forall|k: int|
            0 <= k < split_on(s, sep).len() ==> !(#[trigger] split_on(s, sep)[k]).contains(sep),
    decreases s.len(),
{
    let all = split_on(s, sep);
    if s.len() == 0 {
        assert(all[0] =~= Seq::<char>::empty());
        assert(glued(all, seq![sep]) =~= s);
    } else {
        let rest = s.drop_last();
        lemma_split_parts(rest, sep);
        let front = split_on(rest, sep);
        if s.last() == sep {
            lemma_glued_push(front, seq![sep], Seq::empty());
            assert(glued(all, seq![sep]) =~= s);
        } else {
            let body = front.drop_last();
            let part = front.last().push(s.last());
            assert(front =~= body.push(front.last()));
            assert(!front[front.len() - 1].contains(sep));
            assert(!part.contains(sep)) by {
                if part.contains(sep) {
                    let k = choose|k: int| 0 <= k < part.len() && part[k] == sep;
                    if k < front.last().len() {
                        assert(front.last()[k] == sep);
                        assert(front.last().contains(sep));
                    }
                }
            }
            if body.len() > 0 {
                lemma_glued_push(body, seq![sep], front.last());
                lemma_glued_push(body, seq![sep], part);
                assert(glued(all, seq![sep]) =~= glued(front, seq![sep]).push(s.last()));
            } else {
                assert(glued(all, seq![sep]) == part);
                assert(glued(front, seq![sep]) == front[0]);
            }
            assert(s =~= rest.push(s.last()));
            assert forall|k: int| 0 <= k < all.len() implies !(#[trigger] all[k]).contains(sep) by {
                if k < body.len() {
                    assert(all[k] == front[k]);
                }
            }
        }
    }
}

/// Splitting at a character and joining with it gives the text back, and no part holds it.
pub proof fn law_texts_are_split(s: &str, sep: char, r: Vec<String>, k: int)
    requires
        call_ensures(split, (s, sep), r),
    ensures
        r@.len() >= 1,
        glued(views(r@), seq![sep]) == s@,
        0 <= k < r@.len() ==> !r@[k]@.contains(sep),
{
    lemma_split_parts(s@, sep);
    assert(views(r@).len() == r@.len());
    if 0 <= k < r@.len() {
        assert(views(r@)[k] == r@[k]@);
    }
}

/// Truth is told in words.
pub proof fn law_truth_in_words(b: bool, r: &'static str)
    requires
        call_ensures(bool_str, (b,), r),
    ensures
        b ==> r@ == "true"@,
        !b ==> r@ == "false"@,
{
}

// ---------------------------------------------------------------------------
// Numbers
// ---------------------------------------------------------------------------

/// A number is read back from its digits, and from nothing above the bound.
pub proof fn law_numbers_read_back(n: u64, max: u64, text: String, given: &str, r: Option<u64>)
    requires
        call_ensures(u64_decimal, (n,), text),
        given@ == text@,
        call_ensures(parse_u64, (given, max), r),
    ensures
        n <= max ==> r == Some(n),
        n > max ==> r is None,
{
    if n <= max {
        crate::numbers::lemma_decimal_roundtrip(n as nat, max as nat);
    } else {
        crate::numbers::lemma_decimal_roundtrip(n as nat, n as nat);
    }
}

/// A digit more is ten times as much: the digits of a number are those of its tenth and its last
/// one.
pub proof fn law_digits_are_tens(n: u64, d: u64, text: String, longer: String)
    requires
        n > 0,
        d < 10,
        10 * n + d <= u64::MAX,
        call_ensures(u64_decimal, (n,), text),
        call_ensures(u64_decimal, ((10 * n + d) as u64,), longer),
    ensures
        longer@.len() == text@.len() + 1,
        longer@.drop_last() == text@,
        longer@.last() as u32 == 48 + d,
{
    let m = (10 * n + d) as nat;
    assert(m / 10 == n && m % 10 == d);
    assert(longer@ == crate::numbers::digits(m / 10, 10).push(
        crate::numbers::digit_char((m % 10) as int),
    ));
    assert(longer@.drop_last() =~= text@);
}

/// Numbers with a sign are read back too; what is below zero starts with a hyphen.
pub proof fn law_signed_numbers_read_back(n: i64, text: String, given: &str, r: Option<i64>)
    requires
        call_ensures(i64_decimal, (n,), text),
        given@ == text@,
        call_ensures(parse_i64, (given,), r),
    ensures
        r == Some(n),
        n < 0 <==> text@[0] == '-',
{
    crate::numbers::lemma_int_decimal_roundtrip(n as int);
    if n >= 0 {
        crate::numbers::lemma_decimal_roundtrip(n as nat, n as nat);
        assert(crate::text::is_digit(text@[0]));
    }
}

/// Sums and differences stop at the ends of their range.
pub proof fn law_sums_stop_at_the_ends(a: i64, b: i64, sum: i64, difference: i64)
    requires
        call_ensures(saturating_sum, (a, b), sum),
        call_ensures(saturating_difference, (a, b), difference),
    ensures
        i64::MIN <= a + b <= i64::MAX ==> sum == a + b,
        a + b > i64::MAX ==> sum == i64::MAX,
        a + b < i64::MIN ==> sum == i64::MIN,
        i64::MIN <= a - b <= i64::MAX ==> difference == a - b,
        a - b > i64::MAX ==> difference == i64::MAX,
        a - b < i64::MIN ==> difference == i64::MIN,
{
}

/// A hash starts at its basis, and takes in a byte by mixing it in and multiplying.
pub proof fn law_hashes_take_in_bytes(start: u64, bytes: &[u8], more: &[u8], r: u64, s: u64)
    requires
        call_ensures(fnv_bytes, (start, bytes), r),
        call_ensures(fnv_bytes, (start, more), s),
        more@.len() == bytes@.len() + 1,
        more@.drop_last() == bytes@,
    ensures
        bytes@.len() == 0 ==> r == start,
        s == (r ^ (more@.last() as u64)).wrapping_mul(0x100_0000_01b3),
{
}

/// The hash of a text is that of its bytes from the usual basis.
pub proof fn law_text_hashes(payload: &str, bytes: &[u8], r: u64, s: u64)
    requires
        call_ensures(hash64, (payload,), r),
        bytes@ == vstd::utf8::encode_utf8(payload@),
        call_ensures(fnv_bytes, (0xcbf2_9ce4_8422_2325, bytes), s),
    ensures
        r == s,
{
}

/// A tag is the hash of what it is for, in hexadecimal digits and marked as weak.
pub proof fn law_tags_are_hashes(payload: &str, hash: u64, digits: String, r: String)
    requires
        call_ensures(hash64, (payload,), hash),
        call_ensures(u64_hex, (hash,), digits),
        call_ensures(weak_etag, (payload,), r),
    ensures
        r@ == "W/\""@ + digits@ + "\""@,
{
}

/// Sixteen digits hold any hash, with zeros in front.
pub proof fn law_sixteen_digits(n: u64, digits: String, r: String, i: int)
    requires
        call_ensures(u64_hex, (n,), digits),
        call_ensures(u64_hex16, (n,), r),
    ensures
        r@.len() == 16,
        r@.skip(16 - digits@.len()) == digits@,
        0 <= i < 16 - digits@.len() ==> r@[i] == '0',
{
    crate::hashing::lemma_hex_of_u64(n);
    assert(r@.skip(16 - digits@.len()) =~= digits@);
}

/// A score is what its bits say, both ways, and finite where it is neither infinite nor no
/// number.
pub proof fn law_scores_keep_their_bits(bits: u64, score: Score, back: u64, finite: bool)
    requires
        call_ensures(Score::from_bits, (bits,), score),
        call_ensures(Score::to_bits, (score,), back),
        call_ensures(Score::is_finite, (score,), finite),
    ensures
        back == bits,
        finite <==> bits % 0x8000_0000_0000_0000 < 0x7ff0_0000_0000_0000,
{
}

// ---------------------------------------------------------------------------
// Orders
// ---------------------------------------------------------------------------

/// Texts compare as in a dictionary.
pub proof fn law_texts_compare_as_in_a_dictionary(a: &str, b: &str, r: i8)
    requires
        call_ensures(text_comparison, (a, b), r),
    ensures
        r < 0 <==> earlier(a@, b@),
        r > 0 <==> earlier(b@, a@),
        r == 0 <==> a@ == b@,
{
    crate::laws::feed_order::lemma_order_is_dictionary(a@, b@);
    crate::laws::feed_order::lemma_order_is_dictionary(b@, a@);
    crate::sort::lemma_text_order_antisymmetric(a@, b@);
}

/// A value goes before none, whatever the direction; two values go by it.
pub proof fn law_missing_values_come_last(
    a: u32,
    b: u32,
    order: FeedSortOrder,
    both: Ordering,
    first: Ordering,
    second: Ordering,
    none: Ordering,
)
    requires
        call_ensures(compare_optional_missing_last::<u32>, (Some(a), Some(b), order), both),
        call_ensures(compare_optional_missing_last::<u32>, (Some(a), None::<u32>, order), first),
        call_ensures(compare_optional_missing_last::<u32>, (None::<u32>, Some(b), order), second),
        call_ensures(compare_optional_missing_last::<u32>, (None::<u32>, None::<u32>, order), none),
    ensures
        first is Less && second is Greater && none is Equal,
        order is Asc && a < b ==> both is Less,
        order is Asc && a > b ==> both is Greater,
        order is Desc && a < b ==> both is Greater,
        order is Desc && a > b ==> both is Less,
        a == b ==> both is Equal,
{
}

/// Of two rows that are equally well known, the more relevant goes first where the order falls,
/// and last where it rises.
pub proof fn law_rows_compare_by_relevance(
    left: FeedRow,
    right: FeedRow,
    order: FeedSortOrder,
    r: i8,
)
    requires
        call_ensures(compare_recommendation_score, (&left, &right, order), r),
    ensures
        ({
            let a = left.candidate.score.relevance_score.key;
            let b = right.candidate.score.relevance_score.key;
            let known = crate::laws::feed_order::well_known(left);
            let other = crate::laws::feed_order::well_known(right);
            &&& known && !other ==> r < 0
            &&& !known && other ==> r > 0
            &&& known == other && order is Desc && a > b ==> r < 0
            &&& known == other && order is Desc && a < b ==> r > 0
            &&& known == other && order is Asc && a < b ==> r < 0
            &&& known == other && order is Asc && a > b ==> r > 0
        }),
{
}

} // verus!
