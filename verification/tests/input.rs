use wordle::input::{normalize, parse_yes_no};
use wordle::language::{parse_language, Language};
use wordle::text::{copy_word, letters, same_text, same_word};

#[test]
fn a_line_is_trimmed_and_lowered() {
    assert_eq!(normalize("  SpEeD \r\n"), "speed");
    assert_eq!(normalize("ЗДРАВ\n"), "здрав");
    assert_eq!(normalize("two words"), "two words");
    assert_eq!(normalize(" \t\n"), "");
}

#[test]
fn yes_and_no_are_read_in_full_or_by_initial() {
    assert_eq!(parse_yes_no("yes", "yes", "no"), Some(true));
    assert_eq!(parse_yes_no("y", "yes", "no"), Some(true));
    assert_eq!(parse_yes_no("no", "yes", "no"), Some(false));
    assert_eq!(parse_yes_no("n", "yes", "no"), Some(false));
    assert_eq!(parse_yes_no("да", "да", "не"), Some(true));
    assert_eq!(parse_yes_no("д", "да", "не"), Some(true));
    assert_eq!(parse_yes_no("н", "да", "не"), Some(false));
}

#[test]
fn anything_else_is_no_answer() {
    assert_eq!(parse_yes_no("", "yes", "no"), None);
    assert_eq!(parse_yes_no("ye", "yes", "no"), None);
    assert_eq!(parse_yes_no("yess", "yes", "no"), None);
    assert_eq!(parse_yes_no("maybe", "yes", "no"), None);
    assert_eq!(parse_yes_no("Y", "yes", "no"), None);
    assert_eq!(parse_yes_no("y", "да", "не"), None);
}

#[test]
fn yes_is_tried_before_no() {
    assert_eq!(parse_yes_no("n", "nay", "no"), Some(true));
    assert_eq!(parse_yes_no("same", "same", "same"), Some(true));
    assert_eq!(parse_yes_no("", "", "no"), Some(true));
    assert_eq!(parse_yes_no("", "yes", ""), Some(false));
    assert_eq!(parse_yes_no("x", "", ""), None);
}

#[test]
fn a_language_is_chosen_by_number_or_name() {
    assert_eq!(parse_language("1"), Some(Language::English));
    assert_eq!(parse_language("english"), Some(Language::English));
    assert_eq!(parse_language("2"), Some(Language::Bulgarian));
    assert_eq!(parse_language("български"), Some(Language::Bulgarian));
    assert_eq!(parse_language("3"), None);
    assert_eq!(parse_language(""), None);
    assert_eq!(parse_language("English"), None);
    assert_eq!(parse_language("bulgarian"), None);
}

#[test]
fn words_are_spelled_out_and_compared() {
    assert_eq!(letters("speed"), vec!['s', 'p', 'e', 'e', 'd']);
    assert_eq!(letters("да"), vec!['д', 'а']);
    assert_eq!(letters(""), Vec::<char>::new());
    assert!(same_word(&letters("speed"), &letters("speed")));
    assert!(!same_word(&letters("speed"), &letters("spee")));
    assert!(!same_word(&letters("speed"), &letters("spend")));
    assert!(same_text("", ""));
    assert!(!same_text("a", "b"));
    assert_eq!(copy_word(&letters("allow")), letters("allow"));
}
