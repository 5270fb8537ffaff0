use auth0_cli::text::{chars_of, contains_chars, str_contains};

fn chars(s: &str) -> Vec<char> {
    s.chars().collect()
}

#[test]
fn chars_of_gives_each_character_in_order() {
    assert_eq!(chars_of("abc"), vec!['a', 'b', 'c']);
    assert_eq!(chars_of(""), Vec::<char>::new());
}

#[test]
fn chars_of_counts_characters_not_bytes() {
    let got = chars_of("h\u{e9}llo\u{2713}");
    assert_eq!(got, vec!['h', '\u{e9}', 'l', 'l', 'o', '\u{2713}']);
    assert_eq!(got.len(), 6);
}

#[test]
fn empty_needle_is_in_every_text() {
    assert!(str_contains("abc", ""));
    assert!(str_contains("", ""));
    assert!(contains_chars(&chars("abc"), &Vec::new()));
}

#[test]
fn needle_longer_than_hay_is_not_found() {
    assert!(!str_contains("ab", "abc"));
    assert!(!str_contains("", "a"));
}

#[test]
fn needle_is_found_at_start_middle_and_end() {
    assert!(str_contains("hello world", "hello"));
    assert!(str_contains("hello world", "lo wo"));
    assert!(str_contains("hello world", "world"));
    assert!(str_contains("hello world", "hello world"));
    assert!(str_contains("hello world", "d"));
}

#[test]
fn needle_that_is_absent_is_not_found() {
    assert!(!str_contains("hello world", "worlds"));
    assert!(!str_contains("hello world", "xyz"));
    assert!(!str_contains("hello world", "ow"));
}

#[test]
fn search_goes_on_after_a_partial_match() {
    assert!(str_contains("aaab", "aab"));
    assert!(str_contains("abababc", "ababc"));
    assert!(!str_contains("aaaa", "aab"));
}

#[test]
fn search_tells_upper_case_from_lower_case() {
    assert!(!str_contains("hello", "HELLO"));
    assert!(!str_contains("Hello", "hello"));
    assert!(str_contains("Hello", "Hell"));
}

#[test]
fn search_works_on_characters_outside_ascii() {
    assert!(str_contains("na\u{ef}ve caf\u{e9}", "caf\u{e9}"));
    assert!(str_contains("na\u{ef}ve caf\u{e9}", "\u{ef}v"));
    assert!(!str_contains("na\u{ef}ve caf\u{e9}", "cafe"));
}

#[test]
fn search_agrees_with_the_standard_library() {
    let hays = ["", "a", "ab", "aba", "abab", "user@email.test", "a1b2c3", "auth0|5f1"];
    let needles = ["", "a", "b", "ab", "ba", "aba", "bab", ".test", "2c3", "|5", "zzz"];
    for hay in hays.iter() {
        for needle in needles.iter() {
            assert_eq!(str_contains(hay, needle), hay.contains(needle), "{:?} in {:?}", needle, hay);
            assert_eq!(contains_chars(&chars(hay), &chars(needle)), hay.find(needle).is_some());
        }
    }
}
