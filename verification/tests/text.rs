use micro::text::{
    chars_of, chained, decimal_of, find_from, lower_char, lowered_is, matches_at,
    replace_all, replace_str, same_chars, same_text, string_of,
};

fn cs(s: &str) -> Vec<char> {
    s.chars().collect()
}

#[test]
fn chars_of_keeps_every_character_in_order() {
    assert_eq!(chars_of("héllo"), vec!['h', 'é', 'l', 'l', 'o']);
    assert_eq!(chars_of(""), Vec::<char>::new());
}

#[test]
fn matches_at_tests_one_place() {
    let s = cs("abcabc");
    assert!(matches_at(&s, &cs("abc"), 0));
    assert!(matches_at(&s, &cs("abc"), 3));
    assert!(!matches_at(&s, &cs("abc"), 1));
    assert!(!matches_at(&s, &cs("abc"), 4));
    assert!(!matches_at(&s, &cs("abcabcd"), 0));
    assert!(matches_at(&s, &cs(""), 6));
    assert!(!matches_at(&s, &cs(""), 7));
}

#[test]
fn find_from_gives_the_first_place() {
    let s = cs("a---b---c");
    assert_eq!(find_from(&s, &cs("---"), 0), Some(1));
    assert_eq!(find_from(&s, &cs("---"), 1), Some(1));
    assert_eq!(find_from(&s, &cs("---"), 2), Some(5));
    assert_eq!(find_from(&s, &cs("---"), 6), None);
    assert_eq!(find_from(&s, &cs("---"), 100), None);
    assert_eq!(find_from(&s, &cs(""), 9), Some(9));
    assert_eq!(find_from(&s, &cs("x"), 0), None);
}

#[test]
fn replace_all_replaces_every_occurrence() {
    assert_eq!(replace_all(&cs("a-b-c"), &cs("-"), &cs("+")), cs("a+b+c"));
    assert_eq!(replace_all(&cs("aaaa"), &cs("aa"), &cs("b")), cs("bb"));
    assert_eq!(replace_all(&cs("aaa"), &cs("aa"), &cs("b")), cs("ba"));
    assert_eq!(replace_all(&cs("abc"), &cs("x"), &cs("y")), cs("abc"));
    assert_eq!(replace_all(&cs("abc"), &cs("abc"), &cs("")), cs(""));
    assert_eq!(replace_all(&cs(""), &cs("a"), &cs("b")), cs(""));
}

#[test]
fn replace_all_does_not_scan_what_it_has_set_in() {
    assert_eq!(replace_all(&cs("ab"), &cs("a"), &cs("aa")), cs("aab"));
    assert_eq!(replace_all(&cs("xay"), &cs("a"), &cs("bab")), cs("xbaby"));
}

#[test]
fn replace_all_leaves_text_alone_for_an_empty_pattern() {
    assert_eq!(replace_all(&cs("abc"), &cs(""), &cs("x")), cs("abc"));
}

#[test]
fn replace_str_agrees_with_the_standard_library() {
    let cases = [
        ("<p>{{title}}</p>", "{{title}}", "Hello"),
        ("{{a}}{{a}}", "{{a}}", "{{a}}{{a}}"),
        ("no placeholder", "{{title}}", "x"),
        ("---", "-", ""),
        ("ééé", "é", "e"),
    ];
    for (s, pat, with) in cases.iter() {
        assert_eq!(replace_str(s, pat, with), s.replace(pat, with));
    }
}

#[test]
fn chained_sets_one_text_after_the_other() {
    assert_eq!(chained(&cs("ab"), &cs("cd")), cs("abcd"));
    assert_eq!(chained(&cs("ab"), &cs("")), cs("ab"));
    assert_eq!(chained(&cs(""), &cs("")), cs(""));
}

#[test]
fn same_chars_and_same_text() {
    assert!(same_chars(&cs("abc"), &cs("abc")));
    assert!(!same_chars(&cs("abc"), &cs("abd")));
    assert!(!same_chars(&cs("abc"), &cs("ab")));
    assert!(same_text("", ""));
    assert!(same_text("id-1", "id-1"));
    assert!(!same_text("id-1", "id-2"));
}

#[test]
fn lower_char_touches_ascii_capitals_only() {
    assert_eq!(lower_char('A'), 'a');
    assert_eq!(lower_char('Z'), 'z');
    assert_eq!(lower_char('a'), 'a');
    assert_eq!(lower_char('@'), '@');
    assert_eq!(lower_char('['), '[');
    assert_eq!(lower_char('É'), 'É');
    assert_eq!(lower_char('1'), '1');
}

#[test]
fn lowered_is_compares_without_regard_to_case() {
    assert!(lowered_is(&cs("InDeX"), &cs("index")));
    assert!(!lowered_is(&cs("index"), &cs("Index")));
    assert!(!lowered_is(&cs("indexes"), &cs("index")));
}

#[test]
fn decimal_of_writes_numbers() {
    assert_eq!(decimal_of(0), cs("0"));
    assert_eq!(decimal_of(7), cs("7"));
    assert_eq!(decimal_of(10), cs("10"));
    assert_eq!(decimal_of(4200), cs("4200"));
    assert_eq!(decimal_of(65535), cs("65535"));
}

#[test]
fn string_of_holds_the_characters_in_order() {
    assert_eq!(string_of(&cs("héllo wörld")), "héllo wörld");
    assert_eq!(string_of(&Vec::new()), "");
    assert_eq!(string_of(&chars_of("a\u{1F600}b")), "a\u{1F600}b");
}
