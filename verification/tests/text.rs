use ldui::scan::{find_byte, matches_at};
use ldui::text::{
    contains_text, find_last, from_chars, has_at, replace_all, same_text, text_is, to_chars,
};

fn letters(text: &str) -> Vec<char> {
    text.chars().collect()
}

fn replaced(text: &str, from: &str, to: &str) -> String {
    replace_all(&letters(text), &letters(from), &letters(to)).iter().collect()
}

#[test]
fn bytes_are_found_where_they_stand() {
    let hay = b"abcabcabd";
    assert!(matches_at(hay, b"abc", 0));
    assert!(matches_at(hay, b"abc", 3));
    assert!(!matches_at(hay, b"abc", 6));
    assert!(matches_at(hay, b"abd", 6));
    assert!(!matches_at(hay, b"abd", 7));
    assert!(!matches_at(hay, b"abd", 100));
    assert!(matches_at(hay, b"", 9));
    assert!(!matches_at(hay, b"", 10));
    assert!(!matches_at(b"ab", b"abc", 0));
}

#[test]
fn first_byte_from_a_start_is_found() {
    let hay = b"<a><b>c";
    assert_eq!(find_byte(hay, b'>', 0), Some(2));
    assert_eq!(find_byte(hay, b'>', 2), Some(2));
    assert_eq!(find_byte(hay, b'>', 3), Some(5));
    assert_eq!(find_byte(hay, b'>', 6), None);
    assert_eq!(find_byte(hay, b'>', 1000), None);
    assert_eq!(find_byte(hay, b'x', 0), None);
    assert_eq!(find_byte(b"", b'>', 0), None);
}

#[test]
fn text_and_characters_convert_both_ways() {
    assert_eq!(to_chars("héllo 图"), vec!['h', 'é', 'l', 'l', 'o', ' ', '图']);
    assert_eq!(to_chars(""), Vec::<char>::new());
    assert_eq!(from_chars(&['图', 'a']), "图a");
    assert_eq!(from_chars(&[]), "");
    assert_eq!(from_chars(&to_chars("round trip ×")), "round trip ×");
}

#[test]
fn last_character_is_found() {
    assert_eq!(find_last(&letters("a/b/c"), '/'), Some(3));
    assert_eq!(find_last(&letters("/"), '/'), Some(0));
    assert_eq!(find_last(&letters("abc"), '/'), None);
    assert_eq!(find_last(&letters(""), '/'), None);
}

#[test]
fn texts_are_compared_and_searched() {
    assert!(same_text(&letters("abc"), &letters("abc")));
    assert!(!same_text(&letters("abc"), &letters("abd")));
    assert!(!same_text(&letters("abc"), &letters("ab")));
    assert!(same_text(&[], &[]));
    assert!(text_is(&letters("jpg"), "jpg"));
    assert!(!text_is(&letters("jpg"), "JPG"));
    assert!(has_at(&letters("hello"), &letters("ll"), 2));
    assert!(!has_at(&letters("hello"), &letters("ll"), 3));
    assert!(!has_at(&letters("hello"), &letters("lo"), 4));
    assert!(contains_text(&letters("12 KB"), &letters(" KB")));
    assert!(!contains_text(&letters("12KB"), &letters(" KB")));
    assert!(contains_text(&letters("x"), &letters("")));
    assert!(!contains_text(&letters(""), &letters("x")));
}

#[test]
fn occurrences_are_replaced_from_the_left() {
    assert_eq!(replaced("a<br>b<br>", "<br>", "\n"), "a\nb\n");
    assert_eq!(replaced("aaa", "aa", "b"), "ba");
    assert_eq!(replaced("aaaa", "aa", "b"), "bb");
    assert_eq!(replaced("abc", "abc", ""), "");
    assert_eq!(replaced("abc", "x", "y"), "abc");
    assert_eq!(replaced("abc", "", "y"), "abc");
    assert_eq!(replaced("", "a", "b"), "");
    assert_eq!(replaced("ab", "abc", "x"), "ab");
    assert_eq!(replaced("a.b.c", ".", "::"), "a::b::c");
    assert_eq!(replaced("xaxa", "a", "aa"), "xaaxaa");
    for (text, from, to) in [("a<p>b</p>", "<p>", ""), ("&amp;amp;", "&amp;", "&"), ("ababab", "aba", "c")] {
        assert_eq!(replaced(text, from, to), text.replace(from, to));
    }
}
