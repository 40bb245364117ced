use sentryx::text::{
    find, find_char, has_suffix, occurs, replace, rfind_char, same, slice, to_chars, to_text, trim,
    trim_end_matches,
};

fn chars(s: &str) -> Vec<char> {
    s.chars().collect()
}

#[test]
fn chars_and_text_are_inverse() {
    assert_eq!(to_chars("a/b ●"), vec!['a', '/', 'b', ' ', '●']);
    assert_eq!(to_text(&chars("a/b ●")), "a/b ●");
    assert_eq!(to_text(&Vec::new()), "");
    assert_eq!(to_chars(""), Vec::<char>::new());
}

#[test]
fn find_gives_the_first_occurrence() {
    assert_eq!(find(&chars("a://b://c"), &chars("://")), Some(1));
    assert_eq!(find(&chars("abc"), &chars("://")), None);
    assert_eq!(find(&chars("ab"), &chars("abc")), None);
    assert_eq!(find(&chars("abc"), &chars("")), Some(0));
    assert_eq!(find(&chars("xxabc"), &chars("abc")), Some(2));
}

#[test]
fn find_char_and_rfind_char() {
    assert_eq!(find_char(&chars("a/b/c"), '/'), Some(1));
    assert_eq!(rfind_char(&chars("a/b/c"), '/'), Some(3));
    assert_eq!(find_char(&chars("abc"), '/'), None);
    assert_eq!(rfind_char(&chars("abc"), '/'), None);
    assert_eq!(rfind_char(&chars(""), '/'), None);
}

#[test]
fn occurs_and_has_suffix() {
    assert!(occurs(&chars("hello"), &chars("ll"), 2));
    assert!(!occurs(&chars("hello"), &chars("ll"), 3));
    assert!(!occurs(&chars("hello"), &chars("lo"), 4));
    assert!(occurs(&chars("hello"), &chars(""), 5));
    assert!(!occurs(&chars("hello"), &chars(""), 6));
    assert!(has_suffix(&chars("repo.git"), &chars(".git")));
    assert!(!has_suffix(&chars("git"), &chars(".git")));
}

#[test]
fn trim_end_matches_takes_off_every_repetition() {
    assert_eq!(trim_end_matches(&chars("a.git.git"), &chars(".git")), chars("a"));
    assert_eq!(trim_end_matches(&chars("a.gitx"), &chars(".git")), chars("a.gitx"));
    assert_eq!(trim_end_matches(&chars(".git"), &chars(".git")), chars(""));
    assert_eq!(trim_end_matches(&chars("abc"), &chars("")), chars("abc"));
}

#[test]
fn replace_changes_every_occurrence() {
    assert_eq!(replace(&chars("a/b/c"), '/', '-'), chars("a-b-c"));
    assert_eq!(replace(&chars("abc"), '/', '-'), chars("abc"));
    assert_eq!(replace(&chars("//"), '/', '-'), chars("--"));
}

#[test]
fn trim_takes_off_white_space_on_both_sides() {
    assert_eq!(trim(&chars("  \t man:x(8)\n   man:y(5)\n")), chars("man:x(8)\n   man:y(5)"));
    assert_eq!(trim(&chars("\u{a0}x\u{2003}")), chars("x"));
    assert_eq!(trim(&chars(" \n ")), chars(""));
    assert_eq!(trim(&chars("x")), chars("x"));
}

#[test]
fn slice_and_same() {
    assert_eq!(slice(&chars("hello"), 1, 3), chars("el"));
    assert_eq!(slice(&chars("hello"), 5, 5), chars(""));
    assert!(same(&chars("abc"), &chars("abc")));
    assert!(!same(&chars("abc"), &chars("abd")));
    assert!(!same(&chars("abc"), &chars("ab")));
}
