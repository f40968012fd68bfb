use oranc::text::{
    alphanumeric, chars_of, concat2, concat3, decimal, find, join, le_bytes, same_text,
    signed_decimal, slice_between, sort_strings, starts_with, string_of, tail_from, trim,
    whitespace,
};

fn chars(s: &str) -> Vec<char> {
    s.chars().collect()
}

#[test]
fn text_chars_and_back() {
    assert_eq!(chars_of("a测b"), vec!['a', '测', 'b']);
    assert_eq!(chars_of(""), Vec::<char>::new());
    assert_eq!(string_of(&['x', '\u{10FFFF}', 'y']), "x\u{10FFFF}y");
    assert_eq!(string_of(&[]), "");
}

#[test]
fn text_character_classes() {
    for c in ['a', 'z', 'A', 'Z', '0', '9'] {
        assert!(alphanumeric(c));
    }
    for c in ['-', '.', '_', '/', ' ', 'é', '{', '@', '[', '`', ':'] {
        assert!(!alphanumeric(c));
    }
    for c in 0..=0x3001u32 {
        if let Some(c) = char::from_u32(c) {
            assert_eq!(whitespace(c), c.is_whitespace(), "{:?}", c);
        }
    }
}

#[test]
fn text_trim_is_the_trim_of_std() {
    for s in ["", " ", "  a  ", "\ta b\n", "a", "\u{3000}x\u{2003}", " \n\r ", "a ", " a"] {
        let expected: Vec<char> = s.trim().chars().collect();
        assert_eq!(trim(&chars(s)), expected, "{:?}", s);
    }
}

#[test]
fn text_prefixes_and_slices() {
    assert!(starts_with(&chars("/nix/store/abc"), &chars("/nix/store/")));
    assert!(starts_with(&chars("abc"), &chars("")));
    assert!(starts_with(&chars("abc"), &chars("abc")));
    assert!(!starts_with(&chars("abc"), &chars("abcd")));
    assert!(!starts_with(&chars("abc"), &chars("abd")));
    assert_eq!(tail_from(&chars("abcdef"), 2), chars("cdef"));
    assert_eq!(tail_from(&chars("ab"), 2), chars(""));
    assert_eq!(slice_between(&chars("abcdef"), 1, 4), chars("bcd"));
    assert_eq!(slice_between(&chars("abcdef"), 3, 3), chars(""));
    assert_eq!(find(&chars("a:b:c"), ':', 0), 1);
    assert_eq!(find(&chars("a:b:c"), ':', 2), 3);
    assert_eq!(find(&chars("a:b:c"), ':', 4), 5);
    assert_eq!(find(&chars("abc"), ':', 0), 3);
}

#[test]
fn text_same_text() {
    assert!(same_text("", ""));
    assert!(same_text("abc", "abc"));
    assert!(!same_text("abc", "abd"));
    assert!(!same_text("abc", "ab"));
    assert!(!same_text("ab", "abc"));
}

#[test]
fn text_decimal() {
    assert_eq!(decimal(0), "0");
    assert_eq!(decimal(9), "9");
    assert_eq!(decimal(10), "10");
    assert_eq!(decimal(1234567890), "1234567890");
    assert_eq!(decimal(u64::MAX), "18446744073709551615");
    assert_eq!(signed_decimal(0), "0");
    assert_eq!(signed_decimal(-1), "-1");
    assert_eq!(signed_decimal(42), "42");
    assert_eq!(signed_decimal(i64::MIN), "-9223372036854775808");
    assert_eq!(signed_decimal(i64::MAX), "9223372036854775807");
}

#[test]
fn text_concat_and_join() {
    assert_eq!(concat2("ab", "cd"), "abcd");
    assert_eq!(concat2("", ""), "");
    assert_eq!(concat3("a", "/", "b"), "a/b");
    assert_eq!(join(&vec![], ","), "");
    assert_eq!(join(&vec!["a".to_string()], ","), "a");
    assert_eq!(join(&vec!["a".to_string(), "".to_string(), "c".to_string()], ", "), "a, , c");
}

#[test]
fn text_order_of_bytes() {
    let cases = ["", "a", "ab", "b", "B", "é", "z", "\u{ffff}", "\u{10000}", "a\0", "a "];
    for a in cases {
        for b in cases {
            assert_eq!(le_bytes(a.as_bytes(), b.as_bytes()), a <= b, "{:?} {:?}", a, b);
        }
    }
}

#[test]
fn text_sort_strings_sorts_as_std_does() {
    let input: Vec<String> =
        ["pear", "apple", "", "fig", "apple", "Zed", "é", "app"].iter().map(|s| s.to_string()).collect();
    let mut expected = input.clone();
    expected.sort();
    assert_eq!(sort_strings(input), expected);
    assert_eq!(sort_strings(vec![]), Vec::<String>::new());
}
