use tms::order::{insert_sorted, search_sorted, text_equal, text_less};
use tms::paths::{base_name, join_path, parent_dir, split_components};
use tms::text::{
    chars_of, decimal, find_text, is_whitespace, position_of, string_of, text_contains,
    text_contains_ignoring_case, trim,
};
use tms::error::TmsError;

fn cs(s: &str) -> Vec<char> {
    s.chars().collect()
}

#[test]
fn strings_and_characters() {
    assert_eq!(chars_of("aé\u{1F50D}"), vec!['a', 'é', '\u{1F50D}']);
    assert_eq!(string_of(&vec!['x', 'ü']), "xü");
    assert_eq!(string_of(&chars_of("")), "");
    assert_eq!(position_of(&vec!["a".to_string(), "b".to_string(), "a".to_string()], "a"), Some(0));
    assert_eq!(position_of(&vec!["a".to_string()], "b"), None);
}

#[test]
fn decimals() {
    assert_eq!(decimal(0), "0");
    assert_eq!(decimal(7), "7");
    assert_eq!(decimal(10), "10");
    assert_eq!(decimal(1234567890), "1234567890");
    assert_eq!(decimal(u64::MAX), "18446744073709551615");
}

#[test]
fn trimming_follows_unicode_white_space() {
    assert_eq!(trim("  a b \n"), "a b");
    assert_eq!(trim(""), "");
    assert_eq!(trim(" \t\r\n"), "");
    assert_eq!(trim("x"), "x");
    for code in 0..0x11_0000u32 {
        if let Some(c) = char::from_u32(code) {
            assert_eq!(is_whitespace(c), c.is_whitespace(), "U+{:04X}", code);
        }
    }
    let padded = "\u{2028}\u{85}word\u{205f}\u{1680}";
    assert_eq!(trim(padded), padded.trim());
}

#[test]
fn substrings() {
    assert!(text_contains("/home/u/secret", "secret"));
    assert!(text_contains("abc", ""));
    assert!(text_contains("", ""));
    assert!(!text_contains("", "a"));
    assert!(!text_contains("abc", "abcd"));
    assert!(!text_contains("abc", "ca"));
    assert_eq!(find_text(&cs("a - b - c"), &cs(" - ")), Some(1));
    assert_eq!(find_text(&cs("aaa"), &cs("aa")), Some(0));
    assert_eq!(find_text(&cs("xyz"), &cs("z")), Some(2));
    assert_eq!(find_text(&cs("xyz"), &cs("")), Some(0));
    assert!(text_contains_ignoring_case("Github - Work", "WORK"));
    assert!(text_contains_ignoring_case("ÄPFEL", "äpf"));
    assert!(!text_contains_ignoring_case("Github", "lab"));
}

#[test]
fn dictionary_order() {
    assert!(text_less(&cs(""), &cs("a")));
    assert!(!text_less(&cs("a"), &cs("")));
    assert!(!text_less(&cs("a"), &cs("a")));
    assert!(text_less(&cs("a"), &cs("ab")));
    assert!(text_less(&cs("Z"), &cs("a")));
    assert!(text_less(&cs("ab"), &cs("b")));
    assert!(text_less(&cs("z"), &cs("é")));
    for (a, b) in [("", "x"), ("apple", "apples"), ("B", "a"), ("é", "\u{1F50D}")] {
        assert_eq!(text_less(&cs(a), &cs(b)), a < b);
        assert_eq!(text_less(&cs(b), &cs(a)), b < a);
    }
    assert!(text_equal(&cs("aé"), &cs("aé")));
    assert!(!text_equal(&cs("a"), &cs("ab")));
    assert!(!text_equal(&cs("ab"), &cs("ac")));

    let mut list: Vec<Vec<char>> = Vec::new();
    for word in ["pear", "apple", "zoo", "fig", "apple"] {
        insert_sorted(&mut list, cs(word));
    }
    let words: Vec<String> = list.iter().map(|w| w.iter().collect()).collect();
    assert_eq!(words, vec!["apple", "apple", "fig", "pear", "zoo"]);
    assert_eq!(search_sorted(&list, &cs("fig")), Some(2));
    assert_eq!(search_sorted(&list, &cs("zoo")), Some(4));
    assert_eq!(search_sorted(&list, &cs("fog")), None);
    assert_eq!(search_sorted(&Vec::new(), &cs("x")), None);
}

#[test]
fn names_and_parents_of_paths() {
    assert_eq!(base_name("/a/b/c"), Some("c".to_string()));
    assert_eq!(base_name("/a/b/c///"), Some("c".to_string()));
    assert_eq!(base_name("c"), Some("c".to_string()));
    assert_eq!(base_name("/"), None);
    assert_eq!(base_name(""), None);
    assert_eq!(base_name("/a/.."), None);
    assert_eq!(base_name("/a/..."), Some("...".to_string()));
    assert_eq!(parent_dir("/a/b/.git"), Some("/a/b".to_string()));
    assert_eq!(parent_dir("/a//b/"), Some("/a".to_string()));
    assert_eq!(parent_dir("/a"), Some("/".to_string()));
    assert_eq!(parent_dir("//a"), Some("/".to_string()));
    assert_eq!(parent_dir("a"), Some("".to_string()));
    assert_eq!(parent_dir("/"), None);
    assert_eq!(parent_dir(""), None);
    assert_eq!(join_path("/a", "b"), "/a/b");
    assert_eq!(join_path("/a/", "b"), "/a/b");
    assert_eq!(join_path("", "b"), "b");
    assert_eq!(join_path("/", ".jj/repo"), "/.jj/repo");
    let parts: Vec<String> =
        split_components("/a//bc/d/").iter().map(|p| p.iter().collect()).collect();
    assert_eq!(parts, vec!["/", "a", "bc", "d"]);
    let parts: Vec<String> = split_components("x/y").iter().map(|p| p.iter().collect()).collect();
    assert_eq!(parts, vec!["x", "y"]);
    assert!(split_components("").is_empty());
}

#[test]
fn error_messages() {
    assert_eq!(TmsError::TuiError("no tty".into()).message(), "TUI error: no tty");
    assert_eq!(TmsError::IoError.message(), "IO Error");
    assert_eq!(TmsError::GitError.message(), "Git Error");
    assert_eq!(TmsError::ConfigError.message(), "Config Error");
    assert_eq!(TmsError::NonUtf8Path.message(), "Non Utf-8 Path");
}
