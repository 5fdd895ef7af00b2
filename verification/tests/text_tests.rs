use agent_sessions::text::{
    chars_eq, contains, ends_with, from_chars, join, matches_at, slice, split, starts_with,
    str_eq, to_chars, trim, trim_leading,
};

fn chars(s: &str) -> Vec<char> {
    s.chars().collect()
}

fn text(v: &Vec<char>) -> String {
    v.iter().collect()
}

#[test]
fn strings_and_characters_convert_both_ways() {
    assert_eq!(to_chars("h\u{e9}llo \u{1f600}"), chars("h\u{e9}llo \u{1f600}"));
    assert_eq!(to_chars(""), Vec::<char>::new());
    // would fail if pushing a character left the string unchanged
    assert_eq!(from_chars(&chars("h\u{e9}llo \u{1f600}")), "h\u{e9}llo \u{1f600}");
    assert_eq!(from_chars(&Vec::new()), "");
}

#[test]
fn equality_of_texts() {
    assert!(str_eq("", ""));
    assert!(str_eq("abc", "abc"));
    assert!(str_eq("caf\u{e9}", "caf\u{e9}"));
    assert!(!str_eq("abc", "abd"));
    assert!(!str_eq("abc", "ab"));
    assert!(!str_eq("", "a"));
    assert!(chars_eq(&chars("abc"), &chars("abc")));
    assert!(!chars_eq(&chars("abc"), &chars("abC")));
    assert!(!chars_eq(&chars("abc"), &chars("abcd")));
}

#[test]
fn prefix_suffix_and_occurrence() {
    let hay = chars("hello world");
    assert!(starts_with(&hay, &chars("hello")));
    assert!(starts_with(&hay, &chars("")));
    assert!(!starts_with(&hay, &chars("world")));
    assert!(!starts_with(&chars("he"), &chars("hello")));
    assert!(ends_with(&hay, &chars("world")));
    assert!(ends_with(&hay, &chars("")));
    assert!(!ends_with(&hay, &chars("hello")));
    assert!(!ends_with(&chars("ld"), &chars("world")));
    assert!(contains(&hay, &chars("lo wo")));
    assert!(contains(&hay, &chars("hello world")));
    assert!(contains(&hay, &chars("")));
    assert!(contains(&chars(""), &chars("")));
    assert!(!contains(&hay, &chars("worlds")));
    assert!(!contains(&chars(""), &chars("a")));
    assert!(matches_at(&hay, &chars("world"), 6));
    assert!(!matches_at(&hay, &chars("world"), 5));
    assert!(!matches_at(&hay, &chars("world"), 7));
    assert!(matches_at(&hay, &chars(""), 11));
    assert!(!matches_at(&hay, &chars(""), 12));
}

#[test]
fn trimming_removes_whitespace_at_both_ends() {
    // would fail if the test for whitespace always said no or always yes
    assert_eq!(text(&trim(&chars("  /clear \t\r\n"))), "/clear");
    assert_eq!(text(&trim(&chars("a b"))), "a b");
    assert_eq!(text(&trim(&chars(" \n\t "))), "");
    assert_eq!(text(&trim(&chars(""))), "");
    assert_eq!(text(&trim(&chars("\u{a0}x\u{3000}"))), "x");
    assert_eq!(text(&trim_leading(&chars("  x  "))), "x  ");
    assert_eq!(text(&trim_leading(&chars("   "))), "");
}

#[test]
fn splitting_and_joining() {
    let parts: Vec<String> = split(&chars("a-b--c-"), '-').iter().map(text).collect();
    assert_eq!(parts, vec!["a", "b", "", "c", ""]);
    let one: Vec<String> = split(&chars(""), '-').iter().map(text).collect();
    assert_eq!(one, vec![""]);
    let none: Vec<String> = split(&chars("abc"), '-').iter().map(text).collect();
    assert_eq!(none, vec!["abc"]);
    let pieces = vec![chars("a"), chars(""), chars("bc")];
    assert_eq!(text(&join(&pieces, &chars("/"))), "a//bc");
    assert_eq!(text(&join(&pieces, &chars(", "))), "a, , bc");
    assert_eq!(text(&join(&Vec::new(), &chars("/"))), "");
    assert_eq!(text(&join(&vec![chars("x")], &chars("/"))), "x");
    assert_eq!(text(&slice(&chars("hello"), 1, 3)), "el");
    assert_eq!(text(&slice(&chars("hello"), 5, 5)), "");
}

#[test]
fn splitting_undoes_joining_of_pieces_without_the_separator() {
    let pieces = vec![chars("Users"), chars(""), chars("Projects"), chars("x y")];
    let joined = join(&pieces, &chars("-"));
    assert_eq!(split(&joined, '-'), pieces);
}

#[test]
fn whitespace_is_the_listed_set_of_characters() {
    let listed = |c: char| {
        matches!(
            c,
            '\u{9}'..='\u{d}'
                | ' '
                | '\u{85}'
                | '\u{a0}'
                | '\u{1680}'
                | '\u{2000}'..='\u{200a}'
                | '\u{2028}'
                | '\u{2029}'
                | '\u{202f}'
                | '\u{205f}'
                | '\u{3000}'
        )
    };
    let mut count = 0;
    for code in 0..=0x10FFFFu32 {
        if let Some(c) = char::from_u32(code) {
            // a character is trimmed away exactly where it is whitespace
            assert_eq!(trim(&vec![c]).is_empty(), listed(c), "{:x}", code);
            assert_eq!(trim_leading(&vec![c, 'x']).len() == 1, listed(c), "{:x}", code);
            if listed(c) {
                count += 1;
            }
        }
    }
    assert_eq!(count, 25);
}
