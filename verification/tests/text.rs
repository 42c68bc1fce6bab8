use bibi_db::key::{rank, Rank};
use bibi_db::parse::{parse_bool, parse_i32};
use bibi_db::text::{chars_of, contains, matches_at, remove_all, same_chars, string_of};

fn chars(s: &str) -> Vec<char> {
    s.chars().collect()
}

#[test]
fn chars_of_lists_the_characters() {
    assert_eq!(chars_of("a\u{e9}\u{1f600}b"), vec!['a', '\u{e9}', '\u{1f600}', 'b']);
    assert_eq!(chars_of(""), Vec::<char>::new());
}

#[test]
fn string_of_puts_the_characters_together() {
    assert_eq!(string_of(&vec!['a', '\u{e9}', 'b']), "a\u{e9}b");
    assert_eq!(string_of(&Vec::new()), "");
    assert_eq!(string_of(&chars_of("Int(5)")), "Int(5)");
}

#[test]
fn same_chars_compares_to_the_end() {
    assert!(same_chars(&chars("abc"), &chars("abc")));
    assert!(!same_chars(&chars("abc"), &chars("abd")));
    assert!(!same_chars(&chars("abc"), &chars("ab")));
    assert!(same_chars(&chars(""), &chars("")));
}

#[test]
fn matches_at_looks_at_one_position() {
    let s = chars("xxIntxx");
    assert!(matches_at(&s, &chars("Int"), 2));
    assert!(!matches_at(&s, &chars("Int"), 1));
    assert!(!matches_at(&s, &chars("Int"), 5));
    assert!(!matches_at(&s, &chars("Int"), 7));
    assert!(matches_at(&s, &chars(""), 7));
}

#[test]
fn contains_agrees_with_str_contains() {
    let texts = ["", "Int", "xInt", "Intx", "In", "nt", "IInt", "InInt", "int", "Bool(true)"];
    let patterns = ["", "Int", "I", "t", "Bool", "(", ")", "Intx"];
    for t in texts {
        for p in patterns {
            assert_eq!(contains(&chars(t), &chars(p)), t.contains(p), "{t:?} {p:?}");
        }
    }
}

#[test]
fn remove_all_agrees_with_str_replace() {
    let texts = [
        "", "Int(5)", "aaa", "aaaa", "BoBoolol", "Text(a(b)c)", "((", "IntIntInt", "IInIntntt",
        "xInt", "Intx", "In",
    ];
    let patterns = ["Int", "aa", "Bool", "(", ")", "a", ""];
    for t in texts {
        for p in patterns {
            assert_eq!(
                string_of(&remove_all(&chars(t), &chars(p))),
                t.replace(p, ""),
                "{t:?} {p:?}"
            );
        }
    }
}

#[test]
fn remove_all_does_not_search_what_is_left() {
    assert_eq!(remove_all(&chars("BoBoolol"), &chars("Bool")), chars("Bool"));
    assert_eq!(remove_all(&chars("aaa"), &chars("aa")), chars("a"));
}

#[test]
fn parse_bool_takes_the_two_words_only() {
    assert_eq!(parse_bool(&chars("true")), Some(true));
    assert_eq!(parse_bool(&chars("false")), Some(false));
    for s in ["", "True", "FALSE", " true", "true ", "1", "0", "truee", "tru"] {
        assert_eq!(parse_bool(&chars(s)), None, "{s:?}");
        assert!(s.parse::<bool>().is_err());
    }
}

#[test]
fn parse_i32_agrees_with_the_standard_reading() {
    let inputs = [
        "", "+", "-", "0", "-0", "+0", "7", "-7", "+7", "007", "-007", "2147483647", "2147483648",
        "-2147483648", "-2147483649", "+2147483647", "+2147483648", "99999999999999999999",
        "-99999999999999999999", "00000000000000000000000042", "1_000", " 1", "1 ", "1.0", "--1",
        "+-1", "-+1", "1-", "0x10", "\u{ff11}", "12a", "a12", "\u{663}",
    ];
    for s in inputs {
        assert_eq!(parse_i32(&chars(s)), s.parse::<i32>().ok(), "{s:?}");
    }
}

#[test]
fn parse_i32_exact_values() {
    assert_eq!(parse_i32(&chars("42")), Some(42));
    assert_eq!(parse_i32(&chars("-2147483648")), Some(i32::MIN));
    assert_eq!(parse_i32(&chars("2147483647")), Some(i32::MAX));
    assert_eq!(parse_i32(&chars("2147483648")), None);
    assert_eq!(parse_i32(&chars("-2147483649")), None);
    assert_eq!(parse_i32(&chars("+15")), Some(15));
}

#[test]
fn rank_agrees_with_the_order_of_strings() {
    let words = [
        "", "a", "b", "ab", "abc", "abd", "B", "Z", "z", "\u{e9}", "z\u{e9}", "\u{1f600}",
        "\u{ffff}", "a\u{0}", "aa",
    ];
    for x in words {
        for y in words {
            let expected = if x < y {
                Rank::Before
            } else if x == y {
                Rank::Same
            } else {
                Rank::After
            };
            assert_eq!(rank(&chars(x), &chars(y)), expected, "{x:?} {y:?}");
        }
    }
}
