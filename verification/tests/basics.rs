use mpgs::hashing::{hash64, hex_sha256, u64_hex16, weak_etag};
use mpgs::numbers::{
    i64_decimal, parse_i64, parse_u64, saturating_difference, saturating_sum, u64_decimal,
    u64_hex,
};
use mpgs::score::Score;
use mpgs::sort::{find_last, gather, pick_positions, text_comparison};
use mpgs::text::{
    ascii_lowercase, ascii_uppercase, is_blank, join, split, str_byte_len, str_contains,
    str_ends_with, str_starts_with, strip_prefix, trim, trim_end_of,
};

fn texts(items: &[&str]) -> Vec<String> {
    items.iter().map(|item| item.to_string()).collect()
}

#[test]
fn text_is_trimmed_and_taken_apart_as_usual() {
    for sample in ["", "  a b ", "\u{3000}游\u{2003}", "\t\r\nx", "x\u{85}", "a\u{200b}"] {
        assert_eq!(trim(sample), sample.trim());
        assert_eq!(is_blank(sample), sample.trim().is_empty());
        assert_eq!(str_byte_len(sample), sample.len());
    }
    assert_eq!(trim_end_of("a///", '/'), "a");
    assert_eq!(split("a:b::", ':'), texts(&["a", "b", "", ""]));
    assert_eq!(split("", ':'), texts(&[""]));
    assert_eq!(join(&texts(&["a", "b"]), "; "), "a; b");
    assert_eq!(strip_prefix("Bearer x", "Bearer ").as_deref(), Some("x"));
    assert_eq!(strip_prefix("bearer x", "Bearer "), None);
    assert!(str_contains("abcabd", "abd") && !str_contains("ab", "abc") && str_contains("x", ""));
    assert!(str_starts_with("abc", "ab") && str_ends_with("abc", "bc"));
    assert_eq!(ascii_lowercase("AbÄ"), "abÄ");
    assert_eq!(ascii_uppercase("abä"), "ABä");
}

#[test]
fn numbers_are_written_and_read_back() {
    for n in [0, 1, 9, 10, 12_345, u64::MAX] {
        assert_eq!(u64_decimal(n), n.to_string());
        assert_eq!(u64_hex(n), format!("{n:x}"));
        assert_eq!(u64_hex16(n), format!("{n:016x}"));
        assert_eq!(parse_u64(&u64_decimal(n), u64::MAX), Some(n));
    }
    for n in [0, -1, 42, i64::MIN, i64::MAX] {
        assert_eq!(i64_decimal(n), n.to_string());
        assert_eq!(parse_i64(&i64_decimal(n)), Some(n));
    }
    for sample in ["", "+", "+7", "-0", "007", " 1", "1 ", "18446744073709551616", "1_0"] {
        assert_eq!(parse_u64(sample, u64::MAX), sample.parse::<u64>().ok(), "{sample}");
        assert_eq!(parse_i64(sample), sample.parse::<i64>().ok(), "{sample}");
        assert_eq!(
            parse_u64(sample, 255).map(|n| n as u8),
            sample.parse::<u8>().ok(),
            "{sample}"
        );
    }
    assert_eq!(saturating_sum(i64::MAX, 1), i64::MAX);
    assert_eq!(saturating_difference(i64::MIN, 1), i64::MIN);
    assert_eq!(saturating_difference(3, 5), -2);
}

#[test]
fn hashes_have_their_known_values() {
    assert_eq!(hash64(""), 0xcbf2_9ce4_8422_2325);
    assert_eq!(hash64("a"), 0xaf63_dc4c_8601_ec8c);
    assert_eq!(hash64("foobar"), 0x8594_4171_f739_67e8);
    assert_eq!(weak_etag("a"), "W/\"af63dc4c8601ec8c\"");
    assert_eq!(
        hex_sha256(b""),
        "e3b0c44298fc1c149afbf4c8996fb92427ae41e4649b934ca495991b7852b855"
    );
}

#[test]
fn one_character_changes_a_hash() {
    let text = "recommendation-tie-v1|public|2026-08-02";
    for (at, c) in text.char_indices() {
        let mut other = text.to_owned();
        other.replace_range(at..at + 1, if c == 'x' { "y" } else { "x" });
        assert_ne!(hash64(text), hash64(&other));
    }
}

#[test]
fn scores_order_as_numbers_do() {
    let samples = [f64::NEG_INFINITY, -1.5, -0.0, 0.0, 1e-300, 0.5, 1.0, f64::INFINITY, f64::NAN];
    for a in samples {
        let left = Score::from_bits(a.to_bits());
        assert_eq!(left.to_bits(), a.to_bits());
        assert_eq!(left.is_finite(), a.is_finite());
        for b in samples {
            let right = Score::from_bits(b.to_bits());
            assert_eq!(left.key.cmp(&right.key), a.total_cmp(&b));
            assert_eq!(left.reaches(right), a >= b, "{a} {b}");
        }
    }
}

#[test]
fn positions_are_picked_in_the_order_that_is_wanted() {
    assert_eq!(find_last(&vec![1, 2, 1], 1), Some(2));
    assert_eq!(find_last(&vec![1, 2, 1], 3), None);
    assert_eq!(pick_positions(&vec![9, 2, 1, 2], &vec![1, 2, 3], 5), vec![1, 0]);
    assert_eq!(pick_positions(&vec![2, 1], &vec![1, 2, 3], 1), vec![1]);
    assert_eq!(gather(texts(&["a", "b", "c"]), &vec![2, 0]), texts(&["c", "a"]));
    assert!(text_comparison("a", "b") < 0 && text_comparison("b", "a") > 0);
    assert_eq!(text_comparison("游", "游"), 0);
    assert!(text_comparison("a", "ab") < 0);
}
