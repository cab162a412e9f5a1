use rrake::number::{parse_unit, write_decimal, write_digits};
use rrake::text::{
    chars_of, count, cut_after, cut_between, cut_last_marked, find_first, find_last, join_with,
    same_text, skip, split_on, stands_at, string_of, trimmed,
};

fn c(s: &str) -> Vec<char> {
    s.chars().collect()
}

fn s(v: &Vec<char>) -> String {
    v.iter().collect()
}

#[test]
fn strings_and_characters_convert_both_ways() {
    assert_eq!(chars_of("aé "), vec!['a', 'é', ' ']);
    assert_eq!(chars_of(""), Vec::<char>::new());
    assert_eq!(string_of(&vec!['x', 'ü', 'z']), "xüz");
    assert!(same_text("abc", "abc"));
    assert!(!same_text("abc", "abd"));
    assert!(!same_text("abc", "ab"));
}

#[test]
fn trimming_takes_white_space_from_both_ends() {
    assert_eq!(s(&trimmed(&c("  a b \t\r\n"))), "a b");
    assert_eq!(s(&trimmed(&c("\u{a0}\u{2003}x\u{3000}"))), "x");
    assert_eq!(s(&trimmed(&c("   "))), "");
    assert_eq!(s(&trimmed(&c(""))), "");
    assert_eq!(s(&trimmed(&c("ab"))), "ab");
}

#[test]
fn trimming_agrees_with_the_standard_library() {
    for text in ["  x ", "\u{85}y\u{1680}", "\u{200b}z", "\u{2028}a\u{2029}", "\u{202f}b\u{205f}", "\u{feff}c"] {
        assert_eq!(s(&trimmed(&c(text))), text.trim());
    }
}

#[test]
fn searching_finds_first_and_last() {
    let v = c("abcabcab");
    assert_eq!(find_first(&v, &c("bc"), 0), Some(1));
    assert_eq!(find_first(&v, &c("bc"), 2), Some(4));
    assert_eq!(find_first(&v, &c("bc"), 5), None);
    assert_eq!(find_first(&v, &c("x"), 0), None);
    assert_eq!(find_first(&v, &c(""), 3), Some(3));
    assert_eq!(find_last(&v, &c("ab"), 8), Some(6));
    assert_eq!(find_last(&v, &c("ab"), 7), Some(3));
    assert_eq!(find_last(&v, &c("ab"), 1), None);
    assert_eq!(find_last(&v, &c("ab"), 9), None);
    assert!(stands_at(&v, &c("cab"), 2));
    assert!(!stands_at(&v, &c("cab"), 3));
    assert!(!stands_at(&v, &c("ab"), 7));
}

#[test]
fn counting_never_counts_overlapping_occurrences() {
    assert_eq!(count(&c("aaaa"), &c("aa")), 2);
    assert_eq!(count(&c("aaa"), &c("aa")), 1);
    assert_eq!(count(&c("puts puts"), &c("puts")), 2);
    assert_eq!(count(&c("abc"), &c("")), 0);
    assert_eq!(count(&c(""), &c("a")), 0);
}

#[test]
fn cutting_takes_what_stands_between() {
    assert_eq!(cut_between(&c("say \"a\" and \"b\""), &c("say \""), &c("\"")).map(|v| s(&v)), Some("a\" and \"b".to_string()));
    assert_eq!(cut_between(&c("say \""), &c("say \""), &c("\"")), None);
    assert_eq!(cut_between(&c("x(y)"), &c("("), &c(")")).map(|v| s(&v)), Some("y".to_string()));
    assert_eq!(cut_after(&c("sleep 10 "), &c("sleep ")).map(|v| s(&v)), Some("10 ".to_string()));
    assert_eq!(cut_after(&c("sleeping"), &c("sleep ")), None);
    assert_eq!(cut_last_marked(&c("go \"a\" \"b\""), &c("go"), &c("\"")).map(|v| s(&v)), Some("b".to_string()));
    assert_eq!(cut_last_marked(&c("\"a\" go \"b"), &c("go"), &c("\"")), None);
    assert_eq!(skip(&c("[[:a"), '[', 0), 2);
    assert_eq!(skip(&c("[[:a"), ':', 2), 3);
    assert_eq!(skip(&c("[["), '[', 0), 2);
}

#[test]
fn splitting_gives_one_piece_more_than_separators() {
    let pieces = |text: &str| split_on(&c(text), ',').iter().map(s).collect::<Vec<String>>();
    assert_eq!(pieces("a,b"), vec!["a", "b"]);
    assert_eq!(pieces(""), vec![""]);
    assert_eq!(pieces(","), vec!["", ""]);
    assert_eq!(pieces("a,,b,"), vec!["a", "", "b", ""]);
}

#[test]
fn joining_undoes_splitting() {
    for text in ["", "a", "a b", " a  b ", "  "] {
        let pieces = split_on(&c(text), ' ');
        assert_eq!(s(&join_with(&pieces, &c(" "))), text);
    }
    assert_eq!(s(&join_with(&vec![], &c(", "))), "");
    assert_eq!(s(&join_with(&vec![c("a"), c("b"), c("c")], &c(", "))), "a, b, c");
}

#[test]
fn units_are_read_as_decimal_numbers() {
    assert_eq!(parse_unit("0"), 0);
    assert_eq!(parse_unit("250"), 250);
    assert_eq!(parse_unit("+7"), 7);
    assert_eq!(parse_unit("007"), 7);
    assert_eq!(parse_unit("2147483647"), 2147483647);
}

#[test]
fn units_that_are_no_count_are_zero() {
    assert_eq!(parse_unit(""), 0);
    assert_eq!(parse_unit("+"), 0);
    assert_eq!(parse_unit("abc"), 0);
    assert_eq!(parse_unit("12x"), 0);
    assert_eq!(parse_unit(" 12"), 0);
    assert_eq!(parse_unit("1.5"), 0);
    assert_eq!(parse_unit("-5"), 0);
    assert_eq!(parse_unit("2147483648"), 0);
    assert_eq!(parse_unit("99999999999999999999999"), 0);
    assert_eq!(parse_unit("++1"), 0);
}

#[test]
fn numbers_are_written_in_decimal() {
    assert_eq!(s(&write_digits(0)), "0");
    assert_eq!(s(&write_digits(9)), "9");
    assert_eq!(s(&write_digits(10)), "10");
    assert_eq!(s(&write_digits(1234567890)), "1234567890");
    assert_eq!(s(&write_digits(u64::MAX)), "18446744073709551615");
    assert_eq!(s(&write_decimal(-1)), "-1");
    assert_eq!(s(&write_decimal(0)), "0");
    assert_eq!(s(&write_decimal(512)), "512");
    assert_eq!(s(&write_decimal(i64::MIN)), "-9223372036854775808");
}

#[test]
fn what_is_written_is_read_back() {
    for n in [0i32, 1, 9, 10, 99, 100, 4096, 2147483647] {
        assert_eq!(parse_unit(&s(&write_decimal(n as i64))), n);
    }
}
