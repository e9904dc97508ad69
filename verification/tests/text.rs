use audiobookbay::text::{
    before_chars, between_chars, chars_of, contains_str, find_chars, join_strings, lines_chars,
    push_decimal, starts_with_str, string_of, strip_chars, strip_end_chars, trim_str, CharClass,
};

fn all_chars() -> Vec<char> {
    (0..=0x10ffffu32).filter_map(char::from_u32).collect()
}

#[test]
fn whitespace_is_what_std_takes_for_it() {
    for c in all_chars() {
        assert_eq!(CharClass::Whitespace.matches_char(c), c.is_whitespace(), "{:?}", c);
    }
}

#[test]
fn a_class_of_one_character() {
    assert!(CharClass::Only('"').matches_char('"'));
    assert!(!CharClass::Only('"').matches_char('\''));
}

#[test]
fn text_and_characters_are_the_same() {
    for s in ["", "abc", "Žižek \u{1f4d6}", "a\0b"] {
        assert_eq!(chars_of(s), s.chars().collect::<Vec<char>>());
        assert_eq!(string_of(&chars_of(s)), s);
    }
}

#[test]
fn finding_agrees_with_std() {
    let texts = ["", "a", "aab", "aaab", "ababab", "xéxéy", "</div></div>"];
    let patterns = ["", "a", "ab", "aab", "é", "xéy", "</div>", "zzzzzzzzzzzzzzzz"];
    for s in texts {
        for p in patterns {
            let found = find_chars(&chars_of(s), &chars_of(p));
            let expected = s.find(p).map(|i| s[..i].chars().count());
            assert_eq!(found, expected, "{:?} in {:?}", p, s);
            assert_eq!(contains_str(s, p), s.contains(p));
            assert_eq!(starts_with_str(s, p), s.starts_with(p));
        }
    }
}

#[test]
fn cutting_agrees_with_std() {
    let texts = ["", "a", "Format: MP3 / 64", "x::y::z", "::", "a::", "::a", ":::"];
    for s in texts {
        for p in ["::", "/", "Format:"] {
            let chars = chars_of(s);
            assert_eq!(string_of(before_chars(&chars, &chars_of(p))), s.split(p).next().unwrap());
            let between = between_chars(&chars, &chars_of(p)).map(string_of);
            assert_eq!(between.as_deref(), s.split(p).nth(1), "{:?} in {:?}", p, s);
        }
    }
}

#[test]
fn trimming_agrees_with_std() {
    for s in ["", " ", "  a b  ", "\u{3000}x\u{85}", "\r\n\ta\u{a0}", "é", "\u{200b}x\u{200b}"] {
        assert_eq!(trim_str(s), s.trim());
    }
    for s in ["", "\"", "\"\"a\"\"", "a\"b", "\"a"] {
        assert_eq!(string_of(strip_chars(&chars_of(s), CharClass::Only('"'))), s.trim_matches('"'));
    }
    for s in ["", "/", "a//", "/a/b/", "http://x"] {
        assert_eq!(
            string_of(strip_end_chars(&chars_of(s), CharClass::Only('/'))),
            s.trim_end_matches('/')
        );
    }
}

#[test]
fn lines_agree_with_std() {
    for s in ["", "\n", "a", "a\n", "a\nb", "a\r\nb\r", "\r\n\n\r", "a\n\nb\r\r\n", "\r"] {
        let chars = chars_of(s);
        let lines: Vec<String> = lines_chars(&chars).into_iter().map(string_of).collect();
        assert_eq!(lines, s.lines().collect::<Vec<&str>>(), "{:?}", s);
    }
}

#[test]
fn joining_agrees_with_std() {
    for parts in [vec![], vec!["a"], vec!["a", "b"], vec!["", ""], vec!["x", "", "z"]] {
        let strings: Vec<String> = parts.iter().map(|s| s.to_string()).collect();
        assert_eq!(join_strings(&strings, " "), parts.join(" "));
        assert_eq!(join_strings(&strings, ""), parts.join(""));
    }
}

#[test]
fn decimal_numbers() {
    for n in [0, 7, 9, 10, 11, 99, 100, 1234567890, u64::MAX] {
        let mut s = String::from("n=");
        push_decimal(&mut s, n);
        assert_eq!(s, format!("n={}", n));
    }
}
