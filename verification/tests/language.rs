use wordle::keyboard::KeyboardState;
use wordle::language::{
    bulgarian_messages, bulgarian_specs, english_messages, english_specs, specs_for, Language,
};
use wordle::render::fits_layout;

#[test]
fn english_has_26_letters_and_three_rows() {
    let specs = english_specs();
    assert_eq!(specs.allowed_chars, ('a'..='z').collect::<Vec<char>>());
    assert_eq!(specs.chars_order.len(), 28);
    assert_eq!(specs.chars_order.iter().filter(|key| **key == '\n').count(), 2);
    assert_eq!(specs.chars_order[0], 'q');
    assert_eq!(specs.chars_order[27], 'm');
    assert_eq!(specs.word_length, 5);
    assert_eq!(specs.dictionary_path, "src/english_dictionary.txt");
    assert_eq!(specs.messages.user_input_yes, "yes");
    assert_eq!(specs.messages.user_input_no, "no");
}

#[test]
fn bulgarian_has_30_letters_and_three_rows() {
    let specs = bulgarian_specs();
    assert_eq!(specs.allowed_chars.len(), 30);
    assert_eq!(specs.allowed_chars[0], 'а');
    assert_eq!(specs.allowed_chars[29], 'я');
    assert_eq!(specs.chars_order.len(), 32);
    assert_eq!(specs.chars_order.iter().filter(|key| **key == '\n').count(), 2);
    assert_eq!(specs.word_length, 5);
    assert_eq!(specs.dictionary_path, "src/bulgarian_dictionary.txt");
    assert_eq!(specs.messages.user_input_yes, "да");
    assert_eq!(specs.messages.user_input_no, "не");
}

#[test]
fn every_key_is_a_letter_and_every_letter_a_key() {
    for language in [Language::English, Language::Bulgarian] {
        let specs = specs_for(language);
        let keyboard = KeyboardState::new(&specs.allowed_chars);
        assert!(fits_layout(&keyboard, &specs.chars_order));
        for letter in &specs.allowed_chars {
            assert_eq!(specs.chars_order.iter().filter(|key| *key == letter).count(), 1);
        }
    }
}

#[test]
fn the_texts_of_both_languages() {
    let english = english_messages();
    assert_eq!(english.user_lost, "You ran out of guesses! You lost!");
    assert_eq!(english.guess_num, "Guess #");
    assert_eq!(english.play_again_query, "Would you like to play again? y/n");
    assert_eq!(english.goodbye, "Goodbye!");
    let bulgarian = bulgarian_messages();
    assert_eq!(bulgarian.guess_num, "Догадка #");
    assert_eq!(bulgarian.goodbye, "Довиждане!");
    assert_eq!(bulgarian.err_word_not_exist, "Тази дума не съществува!");
}
