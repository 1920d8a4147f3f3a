use wordle::evaluate::evaluate;
use wordle::keyboard::KeyboardState;
use wordle::verdict::LetterVerdict;
use wordle::verdict::LetterVerdict::{Absent, Correct, Present, Unused};

fn word(text: &str) -> Vec<char> {
    text.chars().collect()
}

fn latin() -> Vec<char> {
    ('a'..='z').collect()
}

#[test]
fn a_new_keyboard_is_unused() {
    let keyboard = KeyboardState::new(&latin());
    for letter in latin() {
        assert_eq!(keyboard.get(letter), Some(Unused));
        assert!(keyboard.has_key(letter));
    }
    assert_eq!(keyboard.get('я'), None);
    assert!(!keyboard.has_key('\n'));
}

#[test]
fn a_repeated_letter_of_the_alphabet_is_one_key() {
    let keyboard = KeyboardState::new(&word("abca"));
    assert_eq!(keyboard.get('a'), Some(Unused));
    assert_eq!(keyboard.get('d'), None);
}

#[test]
fn fold_keeps_the_strongest_verdict() {
    let mut keyboard = KeyboardState::new(&latin());
    keyboard.fold(&evaluate(&word("allow"), &word("lolly")));
    assert_eq!(keyboard.get('l'), Some(Correct));
    assert_eq!(keyboard.get('o'), Some(Present));
    assert_eq!(keyboard.get('y'), Some(Absent));
    assert_eq!(keyboard.get('a'), Some(Unused));
}

#[test]
fn fold_never_weakens_a_verdict() {
    let secret = word("speed");
    let guesses = ["erase", "steed", "deeps", "juicy", "spend", "erase"];
    let mut keyboard = KeyboardState::new(&latin());
    for guess in guesses {
        let before: Vec<LetterVerdict> =
            latin().iter().map(|letter| keyboard.get(*letter).unwrap()).collect();
        keyboard.fold(&evaluate(&secret, &word(guess)));
        for (index, letter) in latin().iter().enumerate() {
            assert!(keyboard.get(*letter).unwrap().at_least(before[index]));
        }
    }
    assert_eq!(keyboard.get('e'), Some(Correct));
    assert_eq!(keyboard.get('s'), Some(Correct));
    assert_eq!(keyboard.get('j'), Some(Absent));
    assert_eq!(keyboard.get('q'), Some(Unused));
}

#[test]
fn a_correct_letter_stays_correct() {
    let mut keyboard = KeyboardState::new(&latin());
    keyboard.fold(&vec![('a', Correct)]);
    keyboard.fold(&vec![('a', Present)]);
    keyboard.fold(&vec![('a', Absent)]);
    assert_eq!(keyboard.get('a'), Some(Correct));
    keyboard.fold(&vec![('b', Absent), ('b', Present), ('b', Absent)]);
    assert_eq!(keyboard.get('b'), Some(Present));
}

#[test]
fn folding_nothing_changes_nothing() {
    let mut keyboard = KeyboardState::new(&latin());
    keyboard.fold(&vec![('a', Present)]);
    keyboard.fold(&vec![]);
    assert_eq!(keyboard.get('a'), Some(Present));
    assert_eq!(keyboard.get('b'), Some(Unused));
}

#[test]
fn letters_outside_the_alphabet_are_turned_down() {
    let mut keyboard = KeyboardState::new(&latin());
    assert!(keyboard.covers_word(&word("hello")));
    assert!(!keyboard.covers_word(&word("héllo")));
    assert!(keyboard.covers_guess(&vec![('a', Present)]));
    assert!(!keyboard.covers_guess(&vec![('a', Present), ('я', Absent)]));
    assert!(!keyboard.try_fold(&vec![('a', Present), ('я', Absent)]));
    assert_eq!(keyboard.get('a'), Some(Unused));
    assert_eq!(keyboard.get('я'), None);
    assert!(keyboard.try_fold(&vec![('a', Present)]));
    assert_eq!(keyboard.get('a'), Some(Present));
}
