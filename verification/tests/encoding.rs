use audiobookbay::encoding::urlencoding;

#[test]
fn unreserved_characters_stand_for_themselves() {
    assert_eq!(urlencoding(""), "");
    assert_eq!(urlencoding("AZaz09-_.~"), "AZaz09-_.~");
}

#[test]
fn other_bytes_are_percent_encoded() {
    assert_eq!(urlencoding("a b"), "a%20b");
    assert_eq!(urlencoding("50% & more?"), "50%25%20%26%20more%3F");
    assert_eq!(urlencoding("Č"), "%C4%8C");
    assert_eq!(urlencoding("\u{1f4d6}"), "%F0%9F%93%96");
    assert_eq!(urlencoding("\0\u{7f}/"), "%00%7F%2F");
}

#[test]
fn every_ascii_byte_is_written_as_expected() {
    for b in 0..128u8 {
        let c = b as char;
        let plain = c.is_ascii_alphanumeric() || "-_.~".contains(c);
        let expected = if plain { c.to_string() } else { format!("%{:02X}", b) };
        assert_eq!(urlencoding(&c.to_string()), expected);
    }
}

#[test]
fn a_reader_gets_the_text_back() {
    for s in ["Dune: Messiah (Unabridged)", "100% Žižek", "a&b=c#d", "\u{1f4d6}"] {
        let t = urlencoding(s).into_bytes();
        let mut bytes = Vec::new();
        let mut i = 0;
        while i < t.len() {
            if t[i] == b'%' {
                let hex = std::str::from_utf8(&t[i + 1..i + 3]).unwrap();
                bytes.push(u8::from_str_radix(hex, 16).unwrap());
                i += 3;
            } else {
                bytes.push(t[i]);
                i += 1;
            }
        }
        assert_eq!(String::from_utf8(bytes).unwrap(), s);
    }
}

#[test]
fn different_texts_are_written_differently() {
    assert_ne!(urlencoding("a b"), urlencoding("a%20b"));
    assert_eq!(urlencoding("a%20b"), "a%2520b");
}

#[test]
fn no_separator_is_left() {
    let t = urlencoding("a&b=c?d/e#f g\"h\n");
    assert!(t.chars().all(|c| c.is_ascii_alphanumeric() || "-_.~%".contains(c)));
}
