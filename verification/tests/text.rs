use dmbot::text::{
    chars_of, contains, cut_before, decimal, lowered_chars, matches_at, strip_all, title_matches,
};

fn chars(s: &str) -> Vec<char> {
    s.chars().collect()
}

#[test]
fn chars_of_gives_the_characters_in_order() {
    assert_eq!(chars_of(""), Vec::new());
    assert_eq!(chars_of("abc"), vec!['a', 'b', 'c']);
    assert_eq!(chars_of("ñ→😀"), vec!['ñ', '→', '😀']);
}

#[test]
fn matches_at_compares_in_place() {
    let hay = chars("hello world");
    assert!(matches_at(&hay, &chars("hello"), 0));
    assert!(matches_at(&hay, &chars("world"), 6));
    assert!(matches_at(&hay, &chars(""), 0));
    assert!(matches_at(&hay, &chars(""), 11));
    assert!(!matches_at(&hay, &chars(""), 12));
    assert!(!matches_at(&hay, &chars("world"), 7));
    assert!(!matches_at(&hay, &chars("hello"), 1));
    assert!(!matches_at(&hay, &chars("hello world!"), 0));
    assert!(!matches_at(&hay, &chars("d"), usize::MAX));
    assert!(!matches_at(&chars(""), &chars("a"), 0));
}

#[test]
fn contains_finds_a_needle_anywhere() {
    let hay = chars("daily mix");
    assert!(contains(&hay, &chars("daily")));
    assert!(contains(&hay, &chars("mix")));
    assert!(contains(&hay, &chars("y m")));
    assert!(contains(&hay, &chars("daily mix")));
    assert!(contains(&hay, &chars("")));
    assert!(contains(&chars(""), &chars("")));
    assert!(!contains(&hay, &chars("daily mixx")));
    assert!(!contains(&hay, &chars("dailymix")));
    assert!(!contains(&hay, &chars("Daily")));
    assert!(!contains(&chars(""), &chars("a")));
    assert!(contains(&chars("aaab"), &chars("aab")));
    assert!(!contains(&chars("ababab"), &chars("abb")));
}

#[test]
fn lowered_chars_follows_unicode() {
    assert_eq!(lowered_chars("Daily MIX"), chars("daily mix"));
    assert_eq!(lowered_chars(""), Vec::new());
    assert_eq!(lowered_chars("ÄÖÜ"), chars("äöü"));
    assert_eq!(lowered_chars("ΟΔΟΣ"), chars("οδος"));
    assert_eq!(lowered_chars("İ"), chars("i\u{307}"));
    assert_eq!(lowered_chars("123 ok!"), chars("123 ok!"));
}

#[test]
fn title_matches_sets_letter_case_aside() {
    assert!(title_matches("Daily Mix", "daily"));
    assert!(title_matches("daily mix", "DAILY"));
    assert!(title_matches("Daily Mix", ""));
    assert!(title_matches("", ""));
    assert!(!title_matches("", "a"));
    assert!(!title_matches("Daily Mix", "news"));
    assert!(title_matches("The Foo Song", "foo"));
}

#[test]
fn strip_all_takes_out_each_occurrence() {
    assert_eq!(strip_all("abcabc", "bc"), "aa");
    assert_eq!(strip_all("abcabc", "abc"), "");
    assert_eq!(strip_all("abcabc", "x"), "abcabc");
    assert_eq!(strip_all("abcabc", ""), "abcabc");
    assert_eq!(strip_all("", "abc"), "");
    assert_eq!(strip_all("ab", "abc"), "ab");
    assert_eq!(strip_all("aaa", "aa"), "a");
    assert_eq!(strip_all("aabb", "ab"), "ab");
    assert_eq!(strip_all("ababa", "aba"), "ba");
    assert_eq!(strip_all("ñxñ", "x"), "ññ");
}

#[test]
fn strip_all_agrees_with_replace() {
    let texts = ["", "a", "aaaa", "abab", "xabyabz", "https://a&b", "ababab", "bababa"];
    let patterns = ["a", "ab", "aba", "b", "ba", "abab", "z"];
    for text in texts {
        for pattern in patterns {
            assert_eq!(strip_all(text, pattern), text.replace(pattern, ""));
        }
    }
}

#[test]
fn cut_before_stops_at_the_first_stop() {
    assert_eq!(cut_before("abc&def&ghi", '&'), "abc");
    assert_eq!(cut_before("abc", '&'), "abc");
    assert_eq!(cut_before("&abc", '&'), "");
    assert_eq!(cut_before("abc&", '&'), "abc");
    assert_eq!(cut_before("", '&'), "");
    assert_eq!(cut_before("ñandú→x", '→'), "ñandú");
}

#[test]
fn decimal_writes_numbers_without_leading_zeros() {
    assert_eq!(decimal(0), "0");
    assert_eq!(decimal(7), "7");
    assert_eq!(decimal(10), "10");
    assert_eq!(decimal(99), "99");
    assert_eq!(decimal(100), "100");
    assert_eq!(decimal(1234567890), "1234567890");
    assert_eq!(decimal(usize::MAX), usize::MAX.to_string());
    for n in 0..1000 {
        assert_eq!(decimal(n), n.to_string());
    }
}
