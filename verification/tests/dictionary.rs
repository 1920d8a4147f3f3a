use wordle::dictionary::{
    check_guess, draw_secret, foreign_letters, is_known_word, load_dictionary, read_words,
    split_words, word_at, words_of_length, GuessError,
};

fn word(text: &str) -> Vec<char> {
    text.chars().collect()
}

fn words(texts: &[&str]) -> Vec<Vec<char>> {
    texts.iter().map(|text| word(text)).collect()
}

#[test]
fn a_text_is_split_at_line_feeds() {
    assert_eq!(split_words(&word("speed\nerase\nallow\n")), words(&["speed", "erase", "allow"]));
    assert_eq!(read_words("ab\n\ncd\n"), words(&["ab", "", "cd"]));
    assert_eq!(read_words("\n"), words(&[""]));
}

#[test]
fn what_follows_the_last_line_feed_is_dropped() {
    assert_eq!(read_words("speed\nerase"), words(&["speed"]));
    assert_eq!(read_words("speed"), words(&[]));
    assert_eq!(read_words(""), words(&[]));
}

#[test]
fn foreign_letters_are_listed_once_in_order() {
    let alphabet: Vec<char> = ('a'..='z').collect();
    assert_eq!(foreign_letters(&word("speed\nerase\n"), &alphabet), word(""));
    assert_eq!(foreign_letters(&word("it's\nno-no\nit's 5\n"), &alphabet), word("'- 5"));
    assert_eq!(foreign_letters(&word("abc"), &word("")), word("abc"));
}

#[test]
fn words_are_kept_by_their_length() {
    let all = words(&["speed", "see", "erase", "", "allows", "allow"]);
    assert_eq!(words_of_length(&all, 5), words(&["speed", "erase", "allow"]));
    assert_eq!(words_of_length(&all, 0), words(&[""]));
    assert_eq!(words_of_length(&all, 7), words(&[]));
    // Length is counted in letters.
    assert_eq!(words_of_length(&words(&["здрав", "hello", "да"]), 5), words(&["здрав", "hello"]));
}

#[test]
fn a_guess_is_checked_against_the_list() {
    let list = words(&["speed", "erase", "allow"]);
    assert_eq!(check_guess(&word("erase"), 5, &list), Ok(()));
    assert_eq!(check_guess(&word("eras"), 5, &list), Err(GuessError::WrongLength));
    assert_eq!(check_guess(&word("erases"), 5, &list), Err(GuessError::WrongLength));
    assert_eq!(check_guess(&word("lolly"), 5, &list), Err(GuessError::UnknownWord));
    assert_eq!(check_guess(&word("lolly"), 5, &words(&[])), Err(GuessError::UnknownWord));
    // The length is checked first, even for a word of the list.
    assert_eq!(check_guess(&word("speed"), 4, &list), Err(GuessError::WrongLength));
    assert!(is_known_word(&list, &word("allow")));
    assert!(!is_known_word(&list, &word("allo")));
}

#[test]
fn a_dictionary_is_loaded_in_lower_case() {
    let latin: Vec<char> = ('a'..='z').collect();
    let english = load_dictionary("Speed\nSEE\nERASE\nit's\nNo-no\nallow", &latin, 5);
    assert_eq!(english.words, words(&["speed", "erase", "no-no"]));
    assert_eq!(english.foreign, word("'-"));
    let cyrillic = load_dictionary("ЗДРАВ\nда\n", &latin, 5);
    assert_eq!(cyrillic.words, words(&["здрав"]));
    assert_eq!(cyrillic.foreign, word("здрав"));
}

#[test]
fn the_secret_is_drawn_from_the_list() {
    let list = words(&["speed", "erase", "allow"]);
    let mut rng = rand::thread_rng();
    let mut seen = vec![false; 3];
    for _ in 0..200 {
        let secret = draw_secret(&mut rng, &list).unwrap();
        let index = list.iter().position(|entry| *entry == secret).unwrap();
        seen[index] = true;
    }
    assert_eq!(seen, vec![true, true, true]);
    assert_eq!(draw_secret(&mut rng, &words(&["speed"])), Some(word("speed")));
}

#[test]
fn no_secret_is_drawn_from_an_empty_list() {
    let mut rng = rand::thread_rng();
    assert_eq!(draw_secret(&mut rng, &words(&[])), None);
}

#[test]
fn a_word_is_taken_by_its_index() {
    let list = words(&["speed", "erase", "allow"]);
    assert_eq!(word_at(&list, 0), word("speed"));
    assert_eq!(word_at(&list, 2), word("allow"));
}
