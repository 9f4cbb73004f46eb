use mist::text::{
    append_strings, clone_opt, clone_strings, contains_str, contains_text, decimal, distinct_names,
    is_space, join, names_with_prefix, opt_eq, split_on, str_chars, str_eq, strip_prefix, trim,
};

fn names(list: &[&str]) -> Vec<String> {
    list.iter().map(|s| s.to_string()).collect()
}

#[test]
fn strings_are_equal_by_their_characters() {
    assert!(str_eq("", ""));
    assert!(str_eq("abc", "abc"));
    assert!(!str_eq("abc", "abd"));
    assert!(!str_eq("abc", "ab"));
    assert!(str_eq("héllo", "héllo"));
    assert!(!str_eq("héllo", "hello"));
}

#[test]
fn optional_strings_are_compared() {
    assert!(opt_eq(&None, None));
    assert!(opt_eq(&Some("a".to_string()), Some("a")));
    assert!(!opt_eq(&Some("a".to_string()), None));
    assert!(!opt_eq(&None, Some("a")));
    assert!(!opt_eq(&Some("a".to_string()), Some("b")));
}

#[test]
fn list_membership() {
    assert!(contains_str(&names(&["a", "b"]), "b"));
    assert!(!contains_str(&names(&["a", "b"]), "c"));
    assert!(!contains_str(&names(&[]), ""));
}

#[test]
fn copies_are_equal() {
    assert_eq!(clone_strings(&names(&["x", "y"])), names(&["x", "y"]));
    assert_eq!(clone_opt(&Some("x".to_string())), Some("x".to_string()));
    assert_eq!(clone_opt(&None), None);
    let mut list = names(&["a"]);
    append_strings(&mut list, &names(&["b", "c"]));
    assert_eq!(list, names(&["a", "b", "c"]));
}

#[test]
fn characters_of_a_string() {
    assert_eq!(str_chars("aé|"), vec!['a', 'é', '|']);
    assert!(str_chars("").is_empty());
}

#[test]
fn split_agrees_with_the_standard_split() {
    for text in ["", ";", "a;b", "a;;b;", ";;", "E:x;W:y", "no separator", "é;ü"] {
        let expected: Vec<String> = text.split(';').map(|s| s.to_string()).collect();
        assert_eq!(split_on(text, ';'), expected);
    }
}

#[test]
fn prefix_is_stripped() {
    assert_eq!(strip_prefix("p!pkg", "p!"), Some("pkg".to_string()));
    assert_eq!(strip_prefix("pkg", "p!"), None);
    assert_eq!(strip_prefix("p", "p!"), None);
    assert_eq!(strip_prefix("p!", "p!"), Some(String::new()));
    assert_eq!(strip_prefix("abc", ""), Some("abc".to_string()));
}

#[test]
fn numbers_are_written_in_decimal() {
    for n in [0u64, 1, 9, 10, 11, 99, 100, 1000, 4294967295, u64::MAX] {
        assert_eq!(decimal(n), n.to_string());
    }
}

#[test]
fn joining_with_a_separator() {
    assert_eq!(join(&names(&[]), ", "), "");
    assert_eq!(join(&names(&["a"]), ", "), "a");
    assert_eq!(join(&names(&["a", "b", "c"]), ", "), "a, b, c");
    assert_eq!(join(&names(&["", ""]), "-"), "-");
}

#[test]
fn white_space_is_what_the_standard_library_says() {
    for code in 0..=0x10ffffu32 {
        if let Some(c) = char::from_u32(code) {
            assert_eq!(is_space(c), c.is_whitespace(), "U+{:04X}", code);
        }
    }
}

#[test]
fn trim_agrees_with_the_standard_trim() {
    for text in ["", " ", "a", "  a  ", "\t\na b\r\n", "\u{3000}x\u{a0}", " \u{2003} ", "a \u{85}"] {
        assert_eq!(trim(text), text.trim());
    }
}

#[test]
fn substring_test_agrees_with_the_standard_one() {
    let texts = ["", "a", "abc", "aab", "ababab", "héllo wörld"];
    let patterns = ["", "a", "b", "ab", "abc", "abab", "bb", "ö", "llo w", "abcd"];
    for text in texts {
        for pattern in patterns {
            assert_eq!(contains_text(text, pattern), text.contains(pattern), "{:?} {:?}", text, pattern);
        }
    }
}

#[test]
fn repeats_are_dropped() {
    assert_eq!(distinct_names(&names(&["a", "b", "a", "c", "b"])), names(&["a", "b", "c"]));
    assert!(distinct_names(&names(&[])).is_empty());
}

#[test]
fn names_by_prefix() {
    assert_eq!(names_with_prefix(&names(&["lib", "libfoo", "foo", "li"]), "lib"), names(&["lib", "libfoo"]));
    assert_eq!(names_with_prefix(&names(&["a", "b"]), ""), names(&["a", "b"]));
}
