use wordle::render::{render_guess, render_letter};
use wordle::verdict::LetterVerdict::{Absent, Correct};

#[test]
fn without_colour_the_letters_are_shown_as_they_are() {
    colored::control::set_override(false);
    assert_eq!(render_letter('a', Correct), "a");
    assert_eq!(render_guess(&vec![('a', Correct), ('b', Absent)]), "ab");
}
