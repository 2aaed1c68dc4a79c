use termux_agent_router::sorting::{precedes, sort};
use termux_agent_router::text::{together, decimal, is_blank, join, same, trim_trailing_slashes};

fn strings(list: &[&str]) -> Vec<String> {
    list.iter().map(|text| text.to_string()).collect()
}

#[test]
fn white_space_is_the_unicode_property() {
    let white: Vec<char> = vec![
        '\u{9}', '\u{a}', '\u{b}', '\u{c}', '\u{d}', ' ', '\u{85}', '\u{a0}', '\u{1680}',
        '\u{2000}', '\u{2001}', '\u{2002}', '\u{2003}', '\u{2004}', '\u{2005}', '\u{2006}',
        '\u{2007}', '\u{2008}', '\u{2009}', '\u{200a}', '\u{2028}', '\u{2029}', '\u{202f}',
        '\u{205f}', '\u{3000}',
    ];
    for c in '\0'..=char::MAX {
        assert_eq!(is_blank(&c.to_string()), white.contains(&c), "{:?}", c);
    }
}

#[test]
fn blank_texts_are_those_that_trim_to_nothing() {
    for text in ["", " ", "\t\n", "\u{3000} ", "a", " a ", "\u{200b}", "\u{feff}"] {
        assert_eq!(is_blank(text), text.trim().is_empty(), "{:?}", text);
    }
}

#[test]
fn trailing_slashes_are_dropped() {
    assert_eq!(trim_trailing_slashes("https://one//"), "https://one");
    for text in ["", "/", "///", "a", "a/", "a/b/", "/a", "\u{e9}//", "a/\u{e9}"] {
        assert_eq!(trim_trailing_slashes(text), text.trim_end_matches('/'));
    }
}

#[test]
fn numbers_are_written_in_decimal() {
    assert_eq!(decimal(8787), "8787");
    for number in [0, 1, 9, 10, 99, 100, 65535, 1_700_000_000_123_456_789, u128::MAX] {
        assert_eq!(decimal(number), number.to_string());
    }
}

#[test]
fn texts_are_joined() {
    assert_eq!(join(&strings(&["a", "b", "c"]), " "), "a b c");
    assert_eq!(join(&strings(&["a"]), ", "), "a");
    assert_eq!(join(&strings(&["", ""]), "\n"), "\n");
    assert_eq!(join(&Vec::new(), "\n"), "");
    assert_eq!(together("tool error: ", "x"), "tool error: x");
}

#[test]
fn texts_are_compared() {
    assert!(same("read", "read"));
    assert!(!same("read", "reads"));
    assert!(!same("read", "real"));
    assert!(same("", ""));
    assert!(!same("\u{e9}", "e\u{301}"));
}

#[test]
fn order_of_texts_is_that_of_std() {
    let texts = ["", "a", "ab", "b", "B", "a\u{0}", "\u{e9}", "\u{ffff}", "\u{10000}", "z", "a/"];
    for left in texts {
        for right in texts {
            assert_eq!(precedes(left, right), left <= right, "{:?} {:?}", left, right);
            assert!(precedes(left, right) || precedes(right, left));
        }
    }
}

#[test]
fn sorting_is_that_of_std() {
    let list = strings(&["src", "Cargo.toml", "a", "", "src", "README.md", "\u{e9}", ".git", "app"]);
    let mut expected = list.clone();
    expected.sort();
    assert_eq!(sort(list), expected);
    assert_eq!(sort(Vec::new()), Vec::<String>::new());
}
