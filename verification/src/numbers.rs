//! Decimal and hexadecimal text of machine integers, and reading it back.

use vstd::prelude::*;

use crate::text::{char_is_digit, is_digit, to_chars};

verus! {

/// The digit character of `d`, for `0 <= d < 16`, in lower case.
pub open spec fn digit_char(d: int) -> char {
    if d < 10 {
        ((48 + d) as u32) as char
    } else {
        ((87 + d) as u32) as char
    }
}

/// Positional notation in `base`, without leading zeros.
pub open spec fn digits(n: nat, base: nat) -> Seq<char>
    decreases n,
{
    if base < 2 || n < base {
        seq![digit_char(n as int)]
    } else {
        proof {
            assert(n / base < n) by (nonlinear_arith)
                requires
                    n >= base,
                    base >= 2,
            ;
        }
        digits(n / base, base).push(digit_char((n % base) as int))
    }
}

pub open spec fn decimal(n: nat) -> Seq<char> {
    digits(n, 10)
}

/// Lower case hexadecimal, without leading zeros.
pub open spec fn hex(n: nat) -> Seq<char> {
    digits(n, 16)
}

/// Decimal notation of an integer, with a minus sign where it is negative.
pub open spec fn int_decimal(n: int) -> Seq<char> {
    if n < 0 {
        seq!['-'] + decimal((-n) as nat)
    } else {
        decimal(n as nat)
    }
}

pub fn digit_of(d: u8) -> (c: char)
    requires
        d < 16,
    ensures
        c == digit_char(d as int),
{
    if d < 10 {
        (48 + d) as char
    } else {
        (87 + d) as char
    }
}

pub fn u64_digits(n: u64, base: u64) -> (r: String)
    requires
        2 <= base <= 16,
    ensures
        r@ == digits(n as nat, base as nat),
    decreases n,
{
    if n < base {
        let mut out = String::new();
        out.push(digit_of(n as u8));
        assert(out@ =~= digits(n as nat, base as nat));
        out
    } else {
        assert(n / base < n) by (nonlinear_arith)
            requires
                n >= base,
                base >= 2,
        ;
        let mut out = u64_digits(n / base, base);
        out.push(digit_of((n % base) as u8));
        out
    }
}

pub fn u64_decimal(n: u64) -> (r: String)
    ensures
        r@ == decimal(n as nat),
{
    u64_digits(n, 10)
}

pub fn u64_hex(n: u64) -> (r: String)
    ensures
        r@ == hex(n as nat),
{
    u64_digits(n, 16)
}

pub fn i64_decimal(n: i64) -> (r: String)
    ensures
        r@ == int_decimal(n as int),
{
    if n < 0 {
        let magnitude: u64 = if n == i64::MIN {
            0x8000_0000_0000_0000
        } else {
            (-n) as u64
        };
        let mut out = String::new();
        out.push('-');
        let tail = u64_decimal(magnitude);
        out.append(tail.as_str());
        assert(out@ =~= int_decimal(n as int));
        out
    } else {
        u64_decimal(n as u64)
    }
}

// ---------------------------------------------------------------------------
// Reading decimal text
// ---------------------------------------------------------------------------

pub open spec fn all_digits(s: Seq<char>) -> bool {
    forall|i: int| 0 <= i < s.len() ==> is_digit(#[trigger] s[i])
}

/// The value of a run of decimal digits.
pub open spec fn digits_value(s: Seq<char>) -> nat
    decreases s.len(),
{
    if s.len() == 0 {
        0
    } else {
        digits_value(s.drop_last()) * 10 + (s.last() as u32 - 48) as nat
    }
}

/// The text after an optional plus sign.
pub open spec fn without_plus(s: Seq<char>) -> Seq<char> {
    if s.len() > 0 && s[0] == '+' {
        s.drop_first()
    } else {
        s
    }
}

/// Reading an unsigned integer: an optional plus sign, at least one digit, and a
/// value of at most `max`.
pub open spec fn parsed_nat(s: Seq<char>, max: nat) -> Option<nat> {
    let body = without_plus(s);
    if body.len() > 0 && all_digits(body) && digits_value(body) <= max {
        Some(digits_value(body))
    } else {
        None
    }
}

/// Reading a signed 64-bit integer: an optional sign, at least one digit, and a
/// value in range.
pub open spec fn parsed_i64(s: Seq<char>) -> Option<int> {
    if s.len() > 0 && s[0] == '-' {
        let body = s.drop_first();
        if body.len() > 0 && all_digits(body) && digits_value(body) <= 0x8000_0000_0000_0000 {
            Some(-(digits_value(body) as int))
        } else {
            None
        }
    } else {
        match parsed_nat(s, i64::MAX as nat) {
            Some(v) => Some(v as int),
            None => None,
        }
    }
}

proof fn lemma_digits_value_prefix(s: Seq<char>, k: int)
    requires
        all_digits(s),
        0 <= k <= s.len(),
    ensures
        digits_value(s.take(k)) <= digits_value(s),
    decreases s.len(),
{
    if k == s.len() {
        assert(s.take(k) =~= s);
    } else {
        assert(s.drop_last().take(k) =~= s.take(k));
        assert forall|i: int| 0 <= i < s.drop_last().len() implies is_digit(#[trigger] s.drop_last()[i]) by {
            assert(is_digit(s[i]));
        }
        lemma_digits_value_prefix(s.drop_last(), k);
    }
}

/// Reads `chars[from..]` as decimal digits worth at most `max`.
fn read_digits(chars: &Vec<char>, from: usize, max: u64) -> (r: Option<u64>)
    requires
        from <= chars@.len(),
    ensures
        ({
            let body = chars@.subrange(from as int, chars@.len() as int);
            if body.len() > 0 && all_digits(body) && digits_value(body) <= max {
                r == Some(digits_value(body) as u64)
            } else {
                r is None
            }
        }),
{
    let n: usize = chars.len();
    let ghost body = chars@.subrange(from as int, n as int);
    if from == n {
        return None;
    }
    let mut i: usize = from;
    let mut value: u64 = 0;
    assert(body.take(0) =~= Seq::empty());
    while i < n
        invariant
            from <= i <= n == chars@.len(),
            body == chars@.subrange(from as int, n as int),
            forall|j: int| 0 <= j < i - from ==> is_digit(#[trigger] body[j]),
            value == digits_value(body.take(i - from)),
            value <= max,
        decreases n - i,
    {
        let c: char = chars[i];
        assert(body[i - from] == c);
        if !char_is_digit(c) {
            return None;
        }
        let d: u64 = (c as u32 - 48) as u64;
        proof {
            let next = body.take(i - from + 1);
            assert(next.drop_last() =~= body.take(i - from));
            assert(next.last() == c);
            assert(digits_value(next) == value * 10 + d);
            if all_digits(body) {
                lemma_digits_value_prefix(body, i - from + 1);
            }
        }
        if d > max || value > (max - d) / 10 {
            return None;
        }
        value = value * 10 + d;
        i = i + 1;
    }
    assert(body.take(n - from) =~= body);
    Some(value)
}

pub fn parse_u64(s: &str, max: u64) -> (r: Option<u64>)
    ensures
        r == (match parsed_nat(s@, max as nat) {
            Some(v) => Some(v as u64),
            None => None,
        }),
        r is Some ==> parsed_nat(s@, max as nat) == Some(r->0 as nat),
{
    let chars = to_chars(s);
    if chars.len() > 0 && chars[0] == '+' {
        assert(chars@.subrange(1, chars@.len() as int) =~= s@.drop_first());
        read_digits(&chars, 1, max)
    } else {
        assert(chars@.subrange(0, chars@.len() as int) =~= s@);
        read_digits(&chars, 0, max)
    }
}

pub fn parse_i64(s: &str) -> (r: Option<i64>)
    ensures
        r == (match parsed_i64(s@) {
            Some(v) => Some(v as i64),
            None => None,
        }),
        r is Some ==> parsed_i64(s@) == Some(r->0 as int),
{
    let chars = to_chars(s);
    if chars.len() > 0 && chars[0] == '-' {
        assert(chars@.subrange(1, chars@.len() as int) =~= s@.drop_first());
        match read_digits(&chars, 1, 0x8000_0000_0000_0000) {
            Some(v) => {
                if v == 0x8000_0000_0000_0000 {
                    Some(i64::MIN)
                } else {
                    Some(-(v as i64))
                }
            },
            None => None,
        }
    } else {
        match parse_u64(s, 0x7fff_ffff_ffff_ffff) {
            Some(v) => Some(v as i64),
            None => None,
        }
    }
}

// ---------------------------------------------------------------------------
// Writing and reading are inverse
// ---------------------------------------------------------------------------

proof fn lemma_decimal_shape(n: nat)
    ensures
        decimal(n).len() >= 1,
        all_digits(decimal(n)),
        digits_value(decimal(n)) == n,
    decreases n,
{
    if n < 10 {
        let one = seq![digit_char(n as int)];
        assert(decimal(n) == one);
        assert(one.drop_last() =~= Seq::empty());
        assert(digits_value(one) == digits_value(one.drop_last()) * 10 + n);
    } else {
        lemma_decimal_shape(n / 10);
        let last = digit_char((n % 10) as int);
        assert(decimal(n) == decimal(n / 10).push(last));
        assert(decimal(n).drop_last() =~= decimal(n / 10));
        assert forall|i: int| 0 <= i < decimal(n).len() implies is_digit(#[trigger] decimal(n)[i]) by {
            if i < decimal(n / 10).len() {
                assert(decimal(n)[i] == decimal(n / 10)[i]);
            }
        }
    }
}

/// Reading the decimal text of an unsigned number gives the number back.
pub proof fn lemma_decimal_roundtrip(n: nat, max: nat)
    requires
        n <= max,
    ensures
        parsed_nat(decimal(n), max) == Some(n),
        all_digits(decimal(n)),
        decimal(n).len() >= 1,
{
    lemma_decimal_shape(n);
    assert(is_digit(decimal(n)[0]));
    assert(without_plus(decimal(n)) == decimal(n));
}

/// Reading the decimal text of a signed 64-bit number gives the number back.
pub proof fn lemma_int_decimal_roundtrip(n: int)
    requires
        i64::MIN <= n <= i64::MAX,
    ensures
        parsed_i64(int_decimal(n)) == Some(n),
        forall|i: int| 0 <= i < int_decimal(n).len() ==> is_digit(#[trigger] int_decimal(n)[i])
            || int_decimal(n)[i] == '-',
        int_decimal(n).len() >= 1,
{
    if n < 0 {
        let m = (-n) as nat;
        lemma_decimal_shape(m);
        let s = int_decimal(n);
        assert(s[0] == '-');
        assert(s.drop_first() =~= decimal(m));
        assert forall|i: int| 0 <= i < s.len() implies is_digit(#[trigger] s[i]) || s[i] == '-' by {
            if i > 0 {
                assert(s[i] == decimal(m)[i - 1]);
            }
        }
    } else {
        lemma_decimal_roundtrip(n as nat, i64::MAX as nat);
        assert(is_digit(decimal(n as nat)[0]));
    }
}

/// Different numbers have different decimal texts.
pub proof fn lemma_decimal_injective(a: nat, b: nat)
    requires
        decimal(a) == decimal(b),
    ensures
        a == b,
{
    lemma_decimal_shape(a);
    lemma_decimal_shape(b);
}

// ---------------------------------------------------------------------------
// Times
// ---------------------------------------------------------------------------

/// The nearest 64-bit integer.
pub open spec fn clamp_i64(n: int) -> int {
    if n < i64::MIN {
        i64::MIN as int
    } else if n > i64::MAX {
        i64::MAX as int
    } else {
        n
    }
}

/// The sum, as far as it can be counted.
pub fn saturating_sum(a: i64, b: i64) -> (r: i64)
    ensures
        r == clamp_i64(a + b),
{
    match a.checked_add(b) {
        Some(sum) => sum,
        None => {
            if b > 0 {
                i64::MAX
            } else {
                i64::MIN
            }
        },
    }
}

/// The difference, as far as it can be counted.
pub fn saturating_difference(a: i64, b: i64) -> (r: i64)
    ensures
        r == clamp_i64(a - b),
{
    match a.checked_sub(b) {
        Some(difference) => difference,
        None => {
            if b < 0 {
                i64::MAX
            } else {
                i64::MIN
            }
        },
    }
}

}
