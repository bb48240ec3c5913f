use okra::text::{chars_of, has_part, stands_at};

fn chars(s: &str) -> Vec<char> {
    s.chars().collect()
}

#[test]
fn lists_the_characters() {
    assert_eq!(chars_of("run"), vec!['r', 'u', 'n']);
    assert_eq!(chars_of(""), Vec::<char>::new());
    assert_eq!(chars_of("añ€"), vec!['a', 'ñ', '€']);
}

#[test]
fn finds_a_part_where_it_stands() {
    assert!(stands_at(&chars("unit testing"), &chars("test"), 5));
    assert!(!stands_at(&chars("unit testing"), &chars("test"), 4));
    assert!(stands_at(&chars("abc"), &chars(""), 3));
}

#[test]
fn finds_a_part_anywhere() {
    assert!(has_part(&chars("unit testing"), &chars("unit")));
    assert!(has_part(&chars("unit testing"), &chars("ting")));
    assert!(has_part(&chars("unit testing"), &chars("t t")));
    assert!(!has_part(&chars("unit testing"), &chars("tests")));
    assert!(!has_part(&chars("ab"), &chars("abc")));
}

#[test]
fn the_empty_part_is_in_every_text() {
    assert!(has_part(&chars("linting"), &chars("")));
    assert!(has_part(&chars(""), &chars("")));
    assert!(!has_part(&chars(""), &chars("a")));
}

#[test]
fn a_percent_sign_is_a_character_like_any_other() {
    assert!(!has_part(&chars("linting"), &chars("%")));
    assert!(has_part(&chars("100% done"), &chars("%")));
}
