use chat_session::text::{is_whitespace, join, split_whitespace, str_le, strip_sentinel};

fn strings(parts: &[&str]) -> Vec<String> {
    parts.iter().map(|p| p.to_string()).collect()
}

#[test]
fn str_le_orders_as_the_standard_library_does() {
    let samples = [
        "", "a", "A", "ab", "abc", "abd", "b", "alice", "Alice", "bob", "carol", "zed", "é",
        "e", "日本", "日", "~", "a b", "a\u{0}", "\u{10ffff}", "\u{ffff}", "Z",
    ];
    for a in samples.iter() {
        for b in samples.iter() {
            assert_eq!(str_le(a, b), a <= b, "{:?} against {:?}", a, b);
        }
    }
}

#[test]
fn str_le_on_prefixes() {
    assert!(str_le("", ""));
    assert!(str_le("", "a"));
    assert!(!str_le("a", ""));
    assert!(str_le("bob", "bobby"));
    assert!(!str_le("bobby", "bob"));
    assert!(str_le("bob", "bob"));
}

#[test]
fn join_puts_the_separator_between_neighbours() {
    assert_eq!(join(&strings(&[]), ", "), "");
    assert_eq!(join(&strings(&["one"]), ", "), "one");
    assert_eq!(join(&strings(&["one", "two"]), ", "), "one, two");
    assert_eq!(join(&strings(&["a", "b", "c"]), " "), "a b c");
    assert_eq!(join(&strings(&["a", "", "c"]), "-"), "a--c");
    assert_eq!(join(&strings(&["", ""]), "+"), "+");
    assert_eq!(join(&strings(&["x", "y"]), ""), "xy");
}

#[test]
fn strip_sentinel_takes_two_colons_off_the_front() {
    assert_eq!(strip_sentinel("::kick bob"), Some("kick bob"));
    assert_eq!(strip_sentinel("::"), Some(""));
    assert_eq!(strip_sentinel(":::users"), Some(":users"));
    assert_eq!(strip_sentinel("::é日本"), Some("é日本"));
}

#[test]
fn strip_sentinel_leaves_other_lines_alone() {
    assert_eq!(strip_sentinel(""), None);
    assert_eq!(strip_sentinel(":"), None);
    assert_eq!(strip_sentinel("hello"), None);
    assert_eq!(strip_sentinel(" ::kick bob"), None);
    assert_eq!(strip_sentinel(":x:"), None);
    assert_eq!(strip_sentinel("é::"), None);
}

#[test]
fn is_whitespace_agrees_with_the_standard_library_on_every_character() {
    for code in 0u32..=0x10ffff {
        if let Some(c) = char::from_u32(code) {
            assert_eq!(is_whitespace(c), c.is_whitespace(), "U+{:04X}", code);
        }
    }
}

#[test]
fn is_whitespace_on_given_characters() {
    for c in [' ', '\t', '\n', '\r', '\u{b}', '\u{c}', '\u{85}', '\u{a0}', '\u{3000}'] {
        assert!(is_whitespace(c), "{:?}", c);
    }
    for c in ['a', '0', '-', '\u{0}', '\u{8}', '\u{e}', '\u{200b}', '\u{180e}', '\u{feff}'] {
        assert!(!is_whitespace(c), "{:?}", c);
    }
}

#[test]
fn split_whitespace_gives_the_longest_runs() {
    assert_eq!(split_whitespace("1234 botname hello there"), ["1234", "botname", "hello", "there"]);
    assert_eq!(split_whitespace("  a \t b\n"), ["a", "b"]);
    assert_eq!(split_whitespace("word"), ["word"]);
    assert_eq!(split_whitespace("é日本 \u{3000}x"), ["é日本", "x"]);
    assert!(split_whitespace("").is_empty());
    assert!(split_whitespace(" \t\r\n").is_empty());
}

#[test]
fn split_whitespace_agrees_with_the_standard_library() {
    let samples = [
        "", " ", "a", " a", "a ", " a ", "a b", "a  b", "\ta\nb\r\nc ", "ab cd ef",
        "\u{a0}x\u{a0}\u{a0}y", "x\u{200b}y z", "é è\u{2003}ê", "::kick \"bob  smith\"",
        "   leading", "trailing   ", "a\u{85}b\u{1680}c\u{2028}d\u{2029}e\u{202f}f\u{205f}g",
    ];
    for text in samples {
        let expected: Vec<String> = text.split_whitespace().map(String::from).collect();
        assert_eq!(split_whitespace(text), expected, "{:?}", text);
    }
}
