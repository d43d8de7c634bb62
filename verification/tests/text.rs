use opsdash::order::{le, sorted_indices};
use opsdash::text::{
    ascii_alnum, chars_of, collapse_whitespace, i64_to_string, join2, join3, parse_unsigned,
    string_of, trim, trim_end, u64_to_string,
};

fn chars(s: &str) -> Vec<char> {
    s.chars().collect()
}

#[test]
fn trim_removes_whitespace_at_both_ends() {
    assert_eq!(trim("  a b \n"), "a b");
    assert_eq!(trim("\t\r\n"), "");
    assert_eq!(trim(""), "");
    assert_eq!(trim("x"), "x");
    assert_eq!(trim("\u{a0}x\u{2003}"), "x");
}

#[test]
fn trim_end_keeps_leading_whitespace() {
    assert_eq!(trim_end("  a  "), "  a");
    assert_eq!(trim_end("   "), "");
}

#[test]
fn collapse_whitespace_joins_words_with_single_spaces() {
    assert_eq!(collapse_whitespace("  Up   2 hours \t(healthy) "), "Up 2 hours (healthy)");
    assert_eq!(collapse_whitespace(""), "");
    assert_eq!(collapse_whitespace(" \n "), "");
    assert_eq!(collapse_whitespace("one"), "one");
}

#[test]
fn decimal_forms() {
    assert_eq!(u64_to_string(0), "0");
    assert_eq!(u64_to_string(7), "7");
    assert_eq!(u64_to_string(1200), "1200");
    assert_eq!(u64_to_string(u64::MAX), "18446744073709551615");
    assert_eq!(i64_to_string(-17), "-17");
    assert_eq!(i64_to_string(0), "0");
    assert_eq!(i64_to_string(i64::MIN), "-9223372036854775808");
    assert_eq!(i64_to_string(i64::MAX), "9223372036854775807");
}

#[test]
fn parse_unsigned_accepts_digits_with_an_optional_plus() {
    assert_eq!(parse_unsigned("42", 100), Some(42));
    assert_eq!(parse_unsigned("+42", 100), Some(42));
    assert_eq!(parse_unsigned("007", 100), Some(7));
    assert_eq!(parse_unsigned("65535", 65535), Some(65535));
    assert_eq!(parse_unsigned("18446744073709551615", u64::MAX), Some(u64::MAX));
}

#[test]
fn parse_unsigned_rejects_everything_else() {
    assert_eq!(parse_unsigned("", 100), None);
    assert_eq!(parse_unsigned("+", 100), None);
    assert_eq!(parse_unsigned("-1", 100), None);
    assert_eq!(parse_unsigned(" 1", 100), None);
    assert_eq!(parse_unsigned("1 ", 100), None);
    assert_eq!(parse_unsigned("12a", 100), None);
    assert_eq!(parse_unsigned("1_0", 100), None);
    assert_eq!(parse_unsigned("101", 100), None);
    assert_eq!(parse_unsigned("65536", 65535), None);
    assert_eq!(parse_unsigned("18446744073709551616", u64::MAX), None);
    assert_eq!(parse_unsigned("99999999999999999999999", u64::MAX), None);
}

#[test]
fn chars_and_back() {
    let v = chars_of("h\u{e9}llo");
    assert_eq!(v, chars("h\u{e9}llo"));
    assert_eq!(string_of(&v, 1, 4), "\u{e9}ll");
    assert_eq!(string_of(&v, 2, 2), "");
}

#[test]
fn joins() {
    assert_eq!(join2("ab", "cd"), "abcd");
    assert_eq!(join3("a", "", "c"), "ac");
}

#[test]
fn ascii_letters_and_digits() {
    for c in ['0', '9', 'a', 'z', 'A', 'Z'] {
        assert!(ascii_alnum(c));
    }
    for c in ['/', ':', '@', '[', '`', '{', '_', '-', ' ', '\u{e9}'] {
        assert!(!ascii_alnum(c));
    }
}

#[test]
fn text_order_is_by_code_point() {
    assert!(le(&chars(""), &chars("")));
    assert!(le(&chars(""), &chars("a")));
    assert!(!le(&chars("a"), &chars("")));
    assert!(le(&chars("B"), &chars("a")));
    assert!(!le(&chars("a"), &chars("B")));
    assert!(le(&chars("ab"), &chars("abc")));
    assert!(!le(&chars("abc"), &chars("ab")));
    assert!(le(&chars("abc"), &chars("abc")));
    assert!(le(&chars("z"), &chars("\u{e9}")));
}

#[test]
fn text_order_agrees_with_the_order_of_strings() {
    let samples = ["", "a", "A", "ab", "b", "\u{e9}", "a\u{1F7E2}", "a b", "~", "Z9"];
    for x in samples {
        for y in samples {
            assert_eq!(le(&chars(x), &chars(y)), x <= y, "{x:?} {y:?}");
        }
    }
}

#[test]
fn sorted_indices_is_a_stable_sort() {
    let keys = vec![chars("b"), chars("a"), chars("B"), chars("a")];
    assert_eq!(sorted_indices(&keys), vec![2, 1, 3, 0]);
    assert_eq!(sorted_indices(&Vec::new()), Vec::<usize>::new());
    assert_eq!(sorted_indices(&vec![chars("x")]), vec![0]);
}

const SAMPLES: [&str; 14] = [
    "",
    " ",
    "a",
    "  a b  ",
    "\ta\n",
    "\r\n",
    "x\u{a0}",
    "\u{2003}y\u{3000}",
    "a\u{85}b",
    "one  two\tthree\nfour",
    "\u{1F7E2} ok",
    "+12",
    "0012",
    "\u{200B}z\u{200B}",
];

#[test]
fn trimming_agrees_with_the_standard_library() {
    for s in SAMPLES {
        assert_eq!(trim(s), s.trim(), "{s:?}");
        assert_eq!(trim_end(s), s.trim_end(), "{s:?}");
        assert_eq!(
            collapse_whitespace(s),
            s.split_whitespace().collect::<Vec<_>>().join(" "),
            "{s:?}"
        );
    }
}

#[test]
fn numbers_agree_with_the_standard_library() {
    let texts = [
        "", "+", "-", "0", "+0", "-0", "1", "65535", "65536", "99999", " 1", "1 ", "1a", "++1",
        "18446744073709551615", "18446744073709551616", "000000000000000000000001", "\u{661}",
    ];
    for t in texts {
        assert_eq!(parse_unsigned(t, 65535), t.parse::<u16>().ok().map(u64::from), "{t:?}");
        assert_eq!(parse_unsigned(t, u64::MAX), t.parse::<u64>().ok(), "{t:?}");
    }
    for n in [0u64, 1, 9, 10, 99, 100, 12345, u64::MAX] {
        assert_eq!(u64_to_string(n), n.to_string());
    }
    for n in [0i64, -1, 1, -10, 42, i64::MIN, i64::MAX] {
        assert_eq!(i64_to_string(n), n.to_string());
    }
}
