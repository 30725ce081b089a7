//! The two hashes of the service: the 64-bit FNV-1a fold that names cached
//! results, and the SHA-256 digest that names stored files.

use vstd::prelude::*;

use crate::numbers::{digit_char, digit_of, hex, u64_hex};
use crate::text::join3;

verus! {

pub const FNV_BASIS: u64 = 0xcbf2_9ce4_8422_2325;

pub const FNV_PRIME: u64 = 0x100_0000_01b3;

/// One FNV-1a step: fold in a byte, then multiply modulo 2^64.
pub open spec fn fnv_step(hash: u64, byte: u8) -> u64 {
    (hash ^ (byte as u64)).wrapping_mul(FNV_PRIME)
}

/// FNV-1a over a byte sequence, from the given start value.
pub open spec fn fnv_fold(start: u64, bytes: Seq<u8>) -> u64
    decreases bytes.len(),
{
    if bytes.len() == 0 {
        start
    } else {
        fnv_step(fnv_fold(start, bytes.drop_last()), bytes.last())
    }
}

/// The FNV-1a hash of a text: the fold over its UTF-8 bytes.
pub open spec fn text_hash(text: Seq<char>) -> u64 {
    fnv_fold(FNV_BASIS, vstd::utf8::encode_utf8(text))
}

pub fn fnv_bytes(start: u64, bytes: &[u8]) -> (r: u64)
    ensures
        r == fnv_fold(start, bytes@),
{
    let mut hash: u64 = start;
    let mut i: usize = 0;
    while i < bytes.len()
        invariant
            0 <= i <= bytes@.len(),
            hash == fnv_fold(start, bytes@.take(i as int)),
        decreases bytes@.len() - i,
    {
        proof {
            let next = bytes@.take(i + 1);
            assert(next.drop_last() =~= bytes@.take(i as int));
            assert(next.last() == bytes@[i as int]);
        }
        hash = (hash ^ (bytes[i] as u64)).wrapping_mul(FNV_PRIME);
        i = i + 1;
    }
    proof {
        assert(bytes@.take(bytes@.len() as int) =~= bytes@);
    }
    hash
}

pub fn hash64(payload: &str) -> (r: u64)
    ensures
        r == text_hash(payload@),
{
    fnv_bytes(FNV_BASIS, payload.as_bytes())
}

/// The text that the tie seed is folded from.
pub open spec fn tie_seed_text(user_id: Option<Seq<char>>, utc_day: Seq<char>) -> Seq<char> {
    let who = match user_id {
        Some(id) => id,
        None => "public"@,
    };
    "recommendation-tie-v1|"@ + who + "|"@ + utc_day
}

/// The seed that orders exact ties: it is the same all day for one account, and
/// the account's identifier cannot be read out of the response.
pub fn recommendation_tie_seed(user_id: Option<&str>, utc_day: &str) -> (r: u64)
    ensures
        r == text_hash(
            tie_seed_text(
                crate::text::str_view(user_id),
                utc_day@,
            ),
        ),
{
    let who: &str = match user_id {
        Some(id) => id,
        None => "public",
    };
    let mut text = join3("recommendation-tie-v1|", who, "|");
    text.append(utc_day);
    hash64(text.as_str())
}

/// A weak entity tag around the hash of `payload`.
pub open spec fn weak_etag_text(payload: Seq<char>) -> Seq<char> {
    "W/\""@ + hex(text_hash(payload) as nat) + "\""@
}

pub fn weak_etag(payload: &str) -> (r: String)
    ensures
        r@ == weak_etag_text(payload@),
{
    let digits = u64_hex(hash64(payload));
    join3("W/\"", digits.as_str(), "\"")
}

/// Sixteen lower case hexadecimal digits, with leading zeros.
pub open spec fn hex16(n: u64) -> Seq<char> {
    Seq::new((16 - hex(n as nat).len()) as nat, |i: int| '0') + hex(n as nat)
}

proof fn lemma_hex_len(n: nat, width: nat)
    requires
        width >= 1,
        n < vstd::arithmetic::power::pow(16, width),
    ensures
        1 <= hex(n).len() <= width,
    decreases width,
{
    reveal(vstd::arithmetic::power::pow);
    if n >= 16 {
        assert(vstd::arithmetic::power::pow(16, width) == 16 * vstd::arithmetic::power::pow(
            16,
            (width - 1) as nat,
        ));
        if width == 1 {
            assert(vstd::arithmetic::power::pow(16, 0) == 1);
            assert(false);
        }
        lemma_hex_len(n / 16, (width - 1) as nat);
    }
}

pub proof fn lemma_hex_of_u64(n: u64)
    ensures
        1 <= hex(n as nat).len() <= 16,
        hex16(n).len() == 16,
{
    reveal_with_fuel(vstd::arithmetic::power::pow, 17);
    assert(vstd::arithmetic::power::pow(16, 16) == 0x1_0000_0000_0000_0000);
    lemma_hex_len(n as nat, 16);
}

pub fn u64_hex16(n: u64) -> (r: String)
    ensures
        r@ == hex16(n),
{
    let tail = u64_hex(n);
    proof {
        lemma_hex_of_u64(n);
    }
    let width: usize = tail.as_str().unicode_len();
    let pad: usize = 16 - width;
    let mut out = String::new();
    let mut i: usize = 0;
    while i < pad
        invariant
            0 <= i <= pad,
            out@ == Seq::new(i as nat, |k: int| '0'),
        decreases pad - i,
    {
        out.push('0');
        i = i + 1;
        assert(out@ =~= Seq::new(i as nat, |k: int| '0'));
    }
    out.append(tail.as_str());
    out
}

// ---------------------------------------------------------------------------
// What the fold tells apart
// ---------------------------------------------------------------------------

/// Multiplication by the prime loses nothing, for the prime has an inverse modulo 2^64.
proof fn lemma_prime_cancels(x: u64, y: u64)
    requires
        x.wrapping_mul(FNV_PRIME) == y.wrapping_mul(FNV_PRIME),
    ensures
        x == y,
{
    lemma_inverse_undoes_prime(x);
    lemma_inverse_undoes_prime(y);
}

proof fn lemma_inverse_undoes_prime(x: u64)
    ensures
        (x.wrapping_mul(FNV_PRIME) as int * 0xce96_5057_aff6_957b) % 0x1_0000_0000_0000_0000 == x,
{
    let m: int = 0x1_0000_0000_0000_0000;
    let p: int = 0x100_0000_01b3;
    let q: int = 0xce96_5057_aff6_957b;
    let k: int = 887285111055;
    let product: int = x as int * p;
    assert(x.wrapping_mul(FNV_PRIME) == product % m);
    vstd::arithmetic::div_mod::lemma_mul_mod_noop_left(product, q, m);
    assert(p * q == m * k + 1);
    assert(product * q == m * (x as int * k) + x) by (nonlinear_arith)
        requires
            product == x as int * p,
            p * q == m * k + 1,
    ;
    vstd::arithmetic::div_mod::lemma_mod_multiples_vanish(x as int * k, x as int, m);
    vstd::arithmetic::div_mod::lemma_small_mod(x as nat, m as nat);
}

/// Two folds over the same bytes agree only where they started alike.
pub proof fn lemma_fold_keeps_starts_apart(a: u64, b: u64, bytes: Seq<u8>)
    requires
        a != b,
    ensures
        fnv_fold(a, bytes) != fnv_fold(b, bytes),
    decreases bytes.len(),
{
    if bytes.len() > 0 {
        lemma_fold_keeps_starts_apart(a, b, bytes.drop_last());
        let x = fnv_fold(a, bytes.drop_last());
        let y = fnv_fold(b, bytes.drop_last());
        let byte = bytes.last() as u64;
        assert(x ^ byte != y ^ byte) by (bit_vector)
            requires
                x != y,
        ;
        if fnv_step(x, bytes.last()) == fnv_step(y, bytes.last()) {
            lemma_prime_cancels(x ^ byte, y ^ byte);
        }
    }
}

proof fn lemma_fold_of_both(start: u64, front: Seq<u8>, back: Seq<u8>)
    ensures
        fnv_fold(start, front + back) == fnv_fold(fnv_fold(start, front), back),
    decreases back.len(),
{
    if back.len() == 0 {
        assert(front + back =~= front);
    } else {
        assert((front + back).drop_last() =~= front + back.drop_last());
        lemma_fold_of_both(start, front, back.drop_last());
    }
}

/// The fold tells apart two byte sequences that differ in one byte.
pub proof fn lemma_fold_tells_one_byte(
    start: u64,
    before: Seq<u8>,
    a: u8,
    b: u8,
    after: Seq<u8>,
)
    requires
        a != b,
    ensures
        fnv_fold(start, before + seq![a] + after) != fnv_fold(start, before + seq![b] + after),
{
    lemma_fold_of_both(start, before + seq![a], after);
    lemma_fold_of_both(start, before + seq![b], after);
    let hash = fnv_fold(start, before);
    assert((before + seq![a]).drop_last() =~= before);
    assert((before + seq![b]).drop_last() =~= before);
    assert(hash ^ (a as u64) != hash ^ (b as u64)) by (bit_vector)
        requires
            a != b,
    ;
    if fnv_step(hash, a) == fnv_step(hash, b) {
        lemma_prime_cancels(hash ^ (a as u64), hash ^ (b as u64));
    }
    lemma_fold_keeps_starts_apart(fnv_step(hash, a), fnv_step(hash, b), after);
}

proof fn lemma_encoding_of_both(front: Seq<char>, back: Seq<char>)
    ensures
        vstd::utf8::encode_utf8(front + back) == vstd::utf8::encode_utf8(front)
            + vstd::utf8::encode_utf8(back),
    decreases front.len(),
{
    if front.len() == 0 {
        assert(front + back =~= back);
        assert(vstd::utf8::encode_utf8(front) + vstd::utf8::encode_utf8(back)
            =~= vstd::utf8::encode_utf8(back));
    } else {
        assert((front + back).drop_first() =~= front.drop_first() + back);
        lemma_encoding_of_both(front.drop_first(), back);
        assert(vstd::utf8::encode_utf8(front + back) =~= vstd::utf8::encode_utf8(front)
            + vstd::utf8::encode_utf8(back));
    }
}

/// An ASCII character is one byte of a text.
pub open spec fn is_ascii(c: char) -> bool {
    (c as int) < 128
}

proof fn lemma_encoding_of_ascii(c: char)
    requires
        is_ascii(c),
    ensures
        vstd::utf8::encode_utf8(seq![c]) == seq![(c as u32) as u8],
        (c as u32) as u8 == c as u32,
{
    let scalar = c as u32;
    assert((scalar & 0x7F) as u8 == scalar as u8) by (bit_vector)
        requires
            scalar < 128,
    ;
    reveal_with_fuel(vstd::utf8::encode_utf8, 2);
    assert(seq![c].drop_first() =~= Seq::empty());
    assert(vstd::utf8::encode_utf8(seq![c]) =~= seq![scalar as u8]);
}

proof fn lemma_hash_tells_between(before: Seq<char>, a: char, b: char, after: Seq<char>)
    requires
        is_ascii(a),
        is_ascii(b),
        a != b,
    ensures
        text_hash(before + seq![a] + after) != text_hash(before + seq![b] + after),
{
    lemma_encoding_of_both(before + seq![a], after);
    lemma_encoding_of_both(before + seq![b], after);
    lemma_encoding_of_both(before, seq![a]);
    lemma_encoding_of_both(before, seq![b]);
    lemma_encoding_of_ascii(a);
    lemma_encoding_of_ascii(b);
    lemma_fold_tells_one_byte(
        FNV_BASIS,
        vstd::utf8::encode_utf8(before),
        (a as u32) as u8,
        (b as u32) as u8,
        vstd::utf8::encode_utf8(after),
    );
}

/// The hash of a text tells apart two texts that differ in one ASCII character.
pub proof fn lemma_hash_tells_one_character(text: Seq<char>, at: int, c: char)
    requires
        0 <= at < text.len(),
        is_ascii(text[at]),
        is_ascii(c),
        c != text[at],
    ensures
        text_hash(text) != text_hash(text.update(at, c)),
{
    let before = text.take(at);
    let after = text.skip(at + 1);
    assert(text =~= before + seq![text[at]] + after);
    assert(text.update(at, c) =~= before + seq![c] + after);
    lemma_hash_tells_between(before, text[at], c, after);
}

/// The seed changes with the day: on two days whose names differ in one ASCII character, such
/// as the second and the third of a month, an account has different seeds.
pub proof fn lemma_seed_changes_with_the_day(
    user_id: Option<Seq<char>>,
    utc_day: Seq<char>,
    at: int,
    c: char,
)
    requires
        0 <= at < utc_day.len(),
        is_ascii(utc_day[at]),
        is_ascii(c),
        c != utc_day[at],
    ensures
        text_hash(tie_seed_text(user_id, utc_day)) != text_hash(
            tie_seed_text(user_id, utc_day.update(at, c)),
        ),
{
    let text = tie_seed_text(user_id, utc_day);
    let place = text.len() - utc_day.len() + at;
    assert(tie_seed_text(user_id, utc_day.update(at, c)) =~= text.update(place, c));
    lemma_hash_tells_one_character(text, place, c);
}

/// The seed changes with the account: on one day, two accounts whose identifiers differ in one
/// ASCII character have different seeds.
pub proof fn lemma_seed_changes_with_the_account(
    user_id: Seq<char>,
    utc_day: Seq<char>,
    at: int,
    c: char,
)
    requires
        0 <= at < user_id.len(),
        is_ascii(user_id[at]),
        is_ascii(c),
        c != user_id[at],
    ensures
        text_hash(tie_seed_text(Some(user_id), utc_day)) != text_hash(
            tie_seed_text(Some(user_id.update(at, c)), utc_day),
        ),
{
    let text = tie_seed_text(Some(user_id), utc_day);
    let place = "recommendation-tie-v1|"@.len() + at;
    assert(tie_seed_text(Some(user_id.update(at, c)), utc_day) =~= text.update(place, c));
    lemma_hash_tells_one_character(text, place, c);
}

// ---------------------------------------------------------------------------
// SHA-256
// ---------------------------------------------------------------------------

/// The SHA-256 digest of a byte sequence.
pub uninterp spec fn sha256(bytes: Seq<u8>) -> Seq<u8>;

/// `sha2::Sha256::digest`: the digest is a function of the bytes alone and is
/// thirty-two bytes long.
#[verifier::external_body]
pub(crate) fn sha256_digest(bytes: &[u8]) -> (r: Vec<u8>)
    ensures
        r@ == sha256(bytes@),
        r@.len() == 32,
{
    <sha2::Sha256 as sha2::Digest>::digest(bytes).to_vec()
}

/// Two lower case hexadecimal digits for each byte.
pub open spec fn bytes_hex(bytes: Seq<u8>) -> Seq<char>
    decreases bytes.len(),
{
    if bytes.len() == 0 {
        Seq::empty()
    } else {
        bytes_hex(bytes.drop_last()).push(digit_char(bytes.last() as int / 16)).push(
            digit_char(bytes.last() as int % 16),
        )
    }
}

pub proof fn lemma_bytes_hex_shape(bytes: Seq<u8>)
    ensures
        bytes_hex(bytes).len() == 2 * bytes.len(),
        forall|i: int|
            0 <= i < bytes_hex(bytes).len() ==> crate::text::is_digit(#[trigger] bytes_hex(bytes)[i])
                || crate::text::is_ascii_lower(bytes_hex(bytes)[i]),
    decreases bytes.len(),
{
    if bytes.len() > 0 {
        lemma_bytes_hex_shape(bytes.drop_last());
        let front = bytes_hex(bytes.drop_last());
        assert forall|i: int| 0 <= i < bytes_hex(bytes).len() implies crate::text::is_digit(
            #[trigger] bytes_hex(bytes)[i],
        ) || crate::text::is_ascii_lower(bytes_hex(bytes)[i]) by {
            if i < front.len() {
                assert(bytes_hex(bytes)[i] == front[i]);
            }
        }
    }
}

/// The hexadecimal text of the first `count` bytes.
pub fn hex_prefix(bytes: &Vec<u8>, count: usize) -> (r: String)
    requires
        count <= bytes@.len(),
    ensures
        r@ == bytes_hex(bytes@.take(count as int)),
{
    let mut out = String::new();
    let mut i: usize = 0;
    while i < count
        invariant
            0 <= i <= count <= bytes@.len(),
            out@ == bytes_hex(bytes@.take(i as int)),
        decreases count - i,
    {
        proof {
            let next = bytes@.take(i + 1);
            assert(next.drop_last() =~= bytes@.take(i as int));
            assert(next.last() == bytes@[i as int]);
        }
        out.push(digit_of(bytes[i] / 16));
        out.push(digit_of(bytes[i] % 16));
        i = i + 1;
    }
    out
}

pub fn hex_sha256(bytes: &[u8]) -> (r: String)
    ensures
        r@ == bytes_hex(sha256(bytes@)),
        r@.len() == 64,
{
    let digest = sha256_digest(bytes);
    proof {
        assert(digest@.take(32) =~= digest@);
        lemma_bytes_hex_shape(digest@);
    }
    hex_prefix(&digest, 32)
}

}
