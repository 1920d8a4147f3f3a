use wordle::evaluate::evaluate;
use wordle::round::{Round, RoundStatus};
use wordle::verdict::LetterVerdict::{Absent, Correct, Present, Unused};

fn word(text: &str) -> Vec<char> {
    text.chars().collect()
}

fn latin() -> Vec<char> {
    ('a'..='z').collect()
}

#[test]
fn a_new_round_awaits_a_guess() {
    let round = Round::new(word("speed"), &latin(), 6);
    assert_eq!(round.status(), RoundStatus::AwaitingGuess);
    assert_eq!(round.guesses_made(), 0);
    assert_eq!(round.max_guesses(), 6);
    assert_eq!(round.secret(), &word("speed"));
    assert!(round.history().is_empty());
    assert!(!round.is_over());
    assert!(!round.is_last_guess());
    assert_eq!(round.keyboard().get('s'), Some(Unused));
}

#[test]
fn the_round_is_won_by_the_secret() {
    let mut round = Round::new(word("speed"), &latin(), 6);
    assert_eq!(round.submit(&word("erase")), RoundStatus::AwaitingGuess);
    assert_eq!(round.guesses_made(), 1);
    assert_eq!(round.submit(&word("speed")), RoundStatus::RoundWon);
    assert_eq!(round.status(), RoundStatus::RoundWon);
    assert!(round.is_over());
    assert_eq!(round.guesses_made(), 1);
    assert_eq!(round.history().len(), 2);
    assert_eq!(round.history()[0], evaluate(&word("speed"), &word("erase")));
    assert!(round.history()[1].iter().all(|entry| entry.1 == Correct));
}

#[test]
fn the_round_is_won_on_the_last_guess() {
    let mut round = Round::new(word("speed"), &latin(), 2);
    assert_eq!(round.submit(&word("erase")), RoundStatus::AwaitingGuess);
    assert!(round.is_last_guess());
    assert_eq!(round.submit(&word("speed")), RoundStatus::RoundWon);
}

#[test]
fn the_round_is_lost_at_the_limit() {
    let mut round = Round::new(word("speed"), &latin(), 6);
    for number in 1..=5 {
        assert!(!round.is_last_guess());
        assert_eq!(round.submit(&word("erase")), RoundStatus::AwaitingGuess);
        assert_eq!(round.guesses_made(), number);
    }
    assert!(round.is_last_guess());
    assert_eq!(round.submit(&word("juicy")), RoundStatus::RoundLost);
    assert_eq!(round.status(), RoundStatus::RoundLost);
    assert_eq!(round.guesses_made(), 6);
    assert_eq!(round.history().len(), 6);
    assert!(round.is_over());
}

#[test]
fn a_round_without_room_is_lost_at_once() {
    let mut round = Round::new(word("speed"), &latin(), 0);
    assert_eq!(round.status(), RoundStatus::RoundLost);
    assert!(!round.accepts(&word("speed")));
    assert_eq!(round.try_submit(&word("speed")), None);
}

#[test]
fn a_finished_round_takes_no_guess() {
    let mut round = Round::new(word("speed"), &latin(), 6);
    assert_eq!(round.try_submit(&word("speed")), Some(RoundStatus::RoundWon));
    assert!(!round.accepts(&word("erase")));
    assert_eq!(round.try_submit(&word("erase")), None);
    assert_eq!(round.history().len(), 1);
    assert_eq!(round.status(), RoundStatus::RoundWon);

    let mut lost = Round::new(word("speed"), &latin(), 1);
    assert_eq!(lost.try_submit(&word("erase")), Some(RoundStatus::RoundLost));
    assert_eq!(lost.try_submit(&word("speed")), None);
    assert_eq!(lost.status(), RoundStatus::RoundLost);
}

#[test]
fn a_malformed_guess_is_not_taken() {
    let mut round = Round::new(word("speed"), &latin(), 6);
    assert!(!round.accepts(&word("spee")));
    assert!(!round.accepts(&word("speeds")));
    assert!(!round.accepts(&word("spéed")));
    assert!(round.accepts(&word("erase")));
    assert_eq!(round.try_submit(&word("spee")), None);
    assert_eq!(round.guesses_made(), 0);
    assert!(round.history().is_empty());
    assert_eq!(round.keyboard().get('s'), Some(Unused));
}

#[test]
fn the_keyboard_follows_the_guesses() {
    let mut round = Round::new(word("allow"), &latin(), 6);
    round.submit(&word("lolly"));
    assert_eq!(round.keyboard().get('l'), Some(Correct));
    assert_eq!(round.keyboard().get('o'), Some(Present));
    assert_eq!(round.keyboard().get('y'), Some(Absent));
    round.submit(&word("yummy"));
    assert_eq!(round.keyboard().get('l'), Some(Correct));
    assert_eq!(round.keyboard().get('o'), Some(Present));
    assert_eq!(round.keyboard().get('m'), Some(Absent));
    round.submit(&word("allow"));
    assert_eq!(round.status(), RoundStatus::RoundWon);
    for letter in word("allow") {
        assert_eq!(round.keyboard().get(letter), Some(Correct));
    }
}
