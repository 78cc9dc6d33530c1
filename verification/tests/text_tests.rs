use ytt::text::{append_chars, chars_of, find, find_from, spells, string_of, trim};

fn chars(s: &str) -> Vec<char> {
    s.chars().collect()
}

#[test]
fn characters_and_strings_go_both_ways() {
    assert_eq!(chars_of("a\u{e9}\u{1F600}"), vec!['a', '\u{e9}', '\u{1F600}']);
    assert_eq!(chars_of(""), Vec::<char>::new());
    assert_eq!(string_of(&['x', '\u{65e5}']), "x\u{65e5}");
    assert_eq!(string_of(&[]), "");
    let mut out = chars("ab");
    append_chars(&mut out, &chars("cd"));
    assert_eq!(out, chars("abcd"));
}

#[test]
fn words_are_compared_whole() {
    assert!(spells(&chars("amp"), "amp"));
    assert!(!spells(&chars("amp"), "am"));
    assert!(!spells(&chars("am"), "amp"));
    assert!(!spells(&chars("amq"), "amp"));
    assert!(spells(&[], ""));
}

#[test]
fn trimming_takes_white_space_off_both_ends() {
    assert_eq!(trim(&chars("  a b \n")), chars("a b"));
    assert_eq!(trim(&chars("\u{a0}\u{2003}x\u{3000}")), chars("x"));
    assert_eq!(trim(&chars(" \t ")), Vec::<char>::new());
    assert_eq!(trim(&chars("")), Vec::<char>::new());
    assert_eq!(trim(&chars("_ _")), chars("_ _"));
}

#[test]
fn first_occurrence_is_found() {
    assert_eq!(find(&chars("abcabc"), &chars("bc")), Some(1));
    assert_eq!(find(&chars("abcabc"), &chars("abcabc")), Some(0));
    assert_eq!(find(&chars("abcabc"), &chars("cb")), None);
    assert_eq!(find(&chars("abc"), &chars("abcd")), None);
    assert_eq!(find(&chars("abc"), &chars("")), Some(0));
    assert_eq!(find(&chars(""), &chars("")), Some(0));
    assert_eq!(find(&chars("aab"), &chars("ab")), Some(1));
}

#[test]
fn search_can_begin_later() {
    assert_eq!(find_from(&chars("abcabc"), &chars("bc"), 2), Some(4));
    assert_eq!(find_from(&chars("abcabc"), &chars("bc"), 4), Some(4));
    assert_eq!(find_from(&chars("abcabc"), &chars("bc"), 5), None);
    assert_eq!(find_from(&chars("abc"), &chars(""), 3), Some(3));
    assert_eq!(find_from(&chars("abc"), &chars(""), 4), None);
    assert_eq!(find_from(&chars("abc"), &chars("a"), 9), None);
}
