//! The languages of the game: alphabet, keyboard layout, word length, the
//! place of the dictionary and the texts shown to the player.

use vstd::prelude::*;
use crate::text::same_text;

verus! {

/// A language in which the game is played.
#[derive(Clone, Copy, Debug, PartialEq, Eq, Structural, Hash)]
pub enum Language {
    English,
    Bulgarian,
}

/// The language that `input` names: its number in the menu or its own name,
/// in lower case.
pub open spec fn language_named(input: Seq<char>) -> Option<Language> {
    if input == "1"@ || input == "english"@ {
        Some(Language::English)
    } else if input == "2"@ || input == "български"@ {
        Some(Language::Bulgarian)
    } else {
        None
    }
}

/// Reads the player's choice of language, or `None` where the input names
/// no language, so that the question can be asked again.
pub fn parse_language(input: &str) -> (language: Option<Language>)
    ensures
        language == language_named(input@),
{
    if same_text(input, "1") || same_text(input, "english") {
        Some(Language::English)
    } else if same_text(input, "2") || same_text(input, "български") {
        Some(Language::Bulgarian)
    } else {
        None
    }
}

/// The texts shown to the player.
pub struct Messages {
    pub user_lost: &'static str,
    pub user_won: &'static str,
    pub guess_num: &'static str,
    pub wordle_was: &'static str,
    pub play_again_query: &'static str,
    pub guess_query: &'static str,
    pub guesses_so_far: &'static str,
    pub goodbye: &'static str,
    pub warn_dict_illegal: &'static str,
    pub guess_last: &'static str,
    pub dict_not_found: &'static str,
    pub err_invalid_input: &'static str,
    pub err_word_length: &'static str,
    pub err_word_not_exist: &'static str,
    pub user_input_yes: &'static str,
    pub user_input_no: &'static str,
}

/// The 26 letters of the English alphabet.
pub open spec fn english_alphabet() -> Seq<char> {
    seq![
        'a', 'b', 'c', 'd', 'e', 'f', 'g', 'h', 'i', 'j', 'k', 'l', 'm', 'n', 'o', 'p', 'q', 'r',
        's', 't', 'u', 'v', 'w', 'x', 'y', 'z',
    ]
}

/// The 30 letters of the Bulgarian alphabet.
pub open spec fn bulgarian_alphabet() -> Seq<char> {
    seq![
        'а', 'б', 'в', 'г', 'д', 'е', 'ж', 'з', 'и', 'й', 'к', 'л', 'м', 'н', 'о', 'п', 'р', 'с',
        'т', 'у', 'ф', 'х', 'ц', 'ч', 'ш', 'щ', 'ъ', 'ь', 'ю', 'я',
    ]
}

/// The English keyboard, row by row, with a line feed between rows.
pub open spec fn english_layout() -> Seq<char> {
    seq![
        'q', 'w', 'e', 'r', 't', 'y', 'u', 'i', 'o', 'p', '\n', 'a', 's', 'd', 'f', 'g', 'h', 'j',
        'k', 'l', '\n', 'z', 'x', 'c', 'v', 'b', 'n', 'm',
    ]
}

/// The Bulgarian keyboard, row by row, with a line feed between rows.
pub open spec fn bulgarian_layout() -> Seq<char> {
    seq![
        'ч', 'я', 'в', 'е', 'р', 'т', 'ъ', 'у', 'и', 'о', 'п', 'ш', 'щ', 'ю', '\n', 'а', 'с', 'д',
        'ф', 'г', 'х', 'й', 'к', 'л', '\n', 'з', 'ь', 'ц', 'ж', 'б', 'н', 'м',
    ]
}

/// What the game needs to know of a language.
pub struct LanguageSpecs {
    /// Where the dictionary is kept.
    pub dictionary_path: &'static str,
    /// The letters that words are made of.
    pub allowed_chars: Vec<char>,
    /// The keys of the keyboard in the order in which they are shown, with a
    /// line feed between rows.
    pub chars_order: Vec<char>,
    /// How many letters a word has.
    pub word_length: usize,
    /// The texts shown to the player.
    pub messages: Messages,
}

impl LanguageSpecs {
    /// Whether every key of the layout is a letter of the alphabet or a
    /// line feed.
    pub open spec fn wf(&self) -> bool {
        forall|i: int|
            0 <= i < self.chars_order@.len() ==> self.chars_order@[i] == '\n'
                || self.allowed_chars@.contains(#[trigger] self.chars_order@[i])
    }
}

/// The texts of the game in English.
pub fn english_messages() -> (messages: Messages)
    ensures
        messages.user_lost@ == "You ran out of guesses! You lost!"@,
        messages.user_won@ == "Congradulation! You won!"@,
        messages.guess_num@ == "Guess #"@,
        messages.wordle_was@ == "The wordle was"@,
        messages.play_again_query@ == "Would you like to play again? y/n"@,
        messages.guess_query@ == "Input guess:"@,
        messages.guesses_so_far@ == "Your guesses so far:"@,
        messages.goodbye@ == "Goodbye!"@,
        messages.warn_dict_illegal@ == "WARNING: DICTIONARY CONTAINS ILLEGAL CHARACTER!:"@,
        messages.guess_last@ == "Last guess!"@,
        messages.dict_not_found@ == "Dictionary not found!"@,
        messages.err_invalid_input@ == "Invalid input!"@,
        messages.err_word_length@ == "The word's length is incorrect!"@,
        messages.err_word_not_exist@ == "The word doesn't exist!"@,
        messages.user_input_yes@ == "yes"@,
        messages.user_input_no@ == "no"@,
{
    Messages {
        user_lost: "You ran out of guesses! You lost!",
        user_won: "Congradulation! You won!",
        guess_num: "Guess #",
        wordle_was: "The wordle was",
        play_again_query: "Would you like to play again? y/n",
        guess_query: "Input guess:",
        guesses_so_far: "Your guesses so far:",
        goodbye: "Goodbye!",
        warn_dict_illegal: "WARNING: DICTIONARY CONTAINS ILLEGAL CHARACTER!:",
        guess_last: "Last guess!",
        dict_not_found: "Dictionary not found!",
        err_invalid_input: "Invalid input!",
        err_word_length: "The word's length is incorrect!",
        err_word_not_exist: "The word doesn't exist!",
        user_input_yes: "yes",
        user_input_no: "no",
    }
}

/// The texts of the game in Bulgarian.
pub fn bulgarian_messages() -> (messages: Messages)
    ensures
        messages.user_lost@ == "Докадките ти свършиха! Ти загуби!"@,
        messages.user_won@ == "Поздравления! Ти спечели!"@,
        messages.guess_num@ == "Догадка #"@,
        messages.wordle_was@ == "Думата беше"@,
        messages.play_again_query@ == "Искаш ли да играеш пак? д/н"@,
        messages.guess_query@ == "Въведи догадка:"@,
        messages.guesses_so_far@ == "Твоите догадки дотук:"@,
        messages.goodbye@ == "Довиждане!"@,
        messages.warn_dict_illegal@ == "ВНИМАНИЕ: РЕЧНИКЪТ СЪДЪРЖА НЕЗАКОННИ СИМВОЛИ!:"@,
        messages.guess_last@ == "Последна догадка!"@,
        messages.dict_not_found@ == "Речник не е намерен!"@,
        messages.err_invalid_input@ == "Невалидно въвеждане!"@,
        messages.err_word_length@ == "Дължината на думата е неправилна!"@,
        messages.err_word_not_exist@ == "Тази дума не съществува!"@,
        messages.user_input_yes@ == "да"@,
        messages.user_input_no@ == "не"@,
{
    Messages {
        user_lost: "Докадките ти свършиха! Ти загуби!",
        user_won: "Поздравления! Ти спечели!",
        guess_num: "Догадка #",
        wordle_was: "Думата беше",
        play_again_query: "Искаш ли да играеш пак? д/н",
        guess_query: "Въведи догадка:",
        guesses_so_far: "Твоите догадки дотук:",
        goodbye: "Довиждане!",
        warn_dict_illegal: "ВНИМАНИЕ: РЕЧНИКЪТ СЪДЪРЖА НЕЗАКОННИ СИМВОЛИ!:",
        guess_last: "Последна догадка!",
        dict_not_found: "Речник не е намерен!",
        err_invalid_input: "Невалидно въвеждане!",
        err_word_length: "Дължината на думата е неправилна!",
        err_word_not_exist: "Тази дума не съществува!",
        user_input_yes: "да",
        user_input_no: "не",
    }
}

/// The game in English: words of five letters.
pub fn english_specs() -> (specs: LanguageSpecs)
    ensures
        specs.dictionary_path@ == "src/english_dictionary.txt"@,
        specs.allowed_chars@ == english_alphabet(),
        specs.chars_order@ == english_layout(),
        specs.word_length == 5,
        specs.messages.user_input_yes@ == "yes"@,
        specs.messages.user_input_no@ == "no"@,
        specs.wf(),
{
    let allowed_chars = vec![
        'a', 'b', 'c', 'd', 'e', 'f', 'g', 'h', 'i', 'j', 'k', 'l', 'm', 'n', 'o', 'p', 'q', 'r',
        's', 't', 'u', 'v', 'w', 'x', 'y', 'z',
    ];
    let chars_order = vec![
        'q', 'w', 'e', 'r', 't', 'y', 'u', 'i', 'o', 'p', '\n', 'a', 's', 'd', 'f', 'g', 'h', 'j',
        'k', 'l', '\n', 'z', 'x', 'c', 'v', 'b', 'n', 'm',
    ];
    let specs = LanguageSpecs {
        dictionary_path: "src/english_dictionary.txt",
        allowed_chars,
        chars_order,
        word_length: 5,
        messages: english_messages(),
    };
    proof {
        lemma_english_layout_fits();
    }
    specs
}

/// The game in Bulgarian: words of five letters.
pub fn bulgarian_specs() -> (specs: LanguageSpecs)
    ensures
        specs.dictionary_path@ == "src/bulgarian_dictionary.txt"@,
        specs.allowed_chars@ == bulgarian_alphabet(),
        specs.chars_order@ == bulgarian_layout(),
        specs.word_length == 5,
        specs.messages.user_input_yes@ == "да"@,
        specs.messages.user_input_no@ == "не"@,
        specs.wf(),
{
    let allowed_chars = vec![
        'а', 'б', 'в', 'г', 'д', 'е', 'ж', 'з', 'и', 'й', 'к', 'л', 'м', 'н', 'о', 'п', 'р', 'с',
        'т', 'у', 'ф', 'х', 'ц', 'ч', 'ш', 'щ', 'ъ', 'ь', 'ю', 'я',
    ];
    let chars_order = vec![
        'ч', 'я', 'в', 'е', 'р', 'т', 'ъ', 'у', 'и', 'о', 'п', 'ш', 'щ', 'ю', '\n', 'а', 'с', 'д',
        'ф', 'г', 'х', 'й', 'к', 'л', '\n', 'з', 'ь', 'ц', 'ж', 'б', 'н', 'м',
    ];
    let specs = LanguageSpecs {
        dictionary_path: "src/bulgarian_dictionary.txt",
        allowed_chars,
        chars_order,
        word_length: 5,
        messages: bulgarian_messages(),
    };
    proof {
        lemma_bulgarian_layout_fits();
    }
    specs
}

/// What the game needs to know of `language`.
pub fn specs_for(language: Language) -> (specs: LanguageSpecs)
    ensures
        specs.wf(),
        specs.word_length == 5,
        specs.allowed_chars@ == match language {
            Language::English => english_alphabet(),
            Language::Bulgarian => bulgarian_alphabet(),
        },
        specs.chars_order@ == match language {
            Language::English => english_layout(),
            Language::Bulgarian => bulgarian_layout(),
        },
{
    match language {
        Language::English => english_specs(),
        Language::Bulgarian => bulgarian_specs(),
    }
}

/// Whether `letter` is one of the first `n` letters of `word`.
spec fn among(word: Seq<char>, letter: char, n: int) -> bool
    decreases n,
{
    n > 0 && (word[n - 1] == letter || among(word, letter, n - 1))
}

/// A letter among the first `n` of a word is contained in the word.
proof fn lemma_among_contains(word: Seq<char>, letter: char, n: int)
    requires
        0 <= n <= word.len(),
        among(word, letter, n),
    ensures
        word.contains(letter),
    decreases n,
{
    if word[n - 1] != letter {
        lemma_among_contains(word, letter, n - 1);
    }
}

/// Every key of the English keyboard is a letter of the English alphabet
/// or a line feed.
pub proof fn lemma_english_layout_fits()
    ensures
        forall|i: int|
            0 <= i < english_layout().len() ==> english_layout()[i] == '\n'
                || english_alphabet().contains(#[trigger] english_layout()[i]),
{
    let alphabet = english_alphabet();
    let layout = english_layout();
    assert forall|i: int| 0 <= i < layout.len() implies layout[i] == '\n' || alphabet.contains(
        #[trigger] layout[i],
    ) by {
        if layout[i] != '\n' {
            reveal_with_fuel(among, 27);
            assert(among(alphabet, layout[i], 26));
            lemma_among_contains(alphabet, layout[i], 26);
        }
    }
}

/// Every key of the Bulgarian keyboard is a letter of the Bulgarian
/// alphabet or a line feed.
pub proof fn lemma_bulgarian_layout_fits()
    ensures
        forall|i: int|
            0 <= i < bulgarian_layout().len() ==> bulgarian_layout()[i] == '\n'
                || bulgarian_alphabet().contains(#[trigger] bulgarian_layout()[i]),
{
    let alphabet = bulgarian_alphabet();
    let layout = bulgarian_layout();
    assert forall|i: int| 0 <= i < layout.len() implies layout[i] == '\n' || alphabet.contains(
        #[trigger] layout[i],
    ) by {
        if layout[i] != '\n' {
            reveal_with_fuel(among, 31);
            assert(among(alphabet, layout[i], 30));
            lemma_among_contains(alphabet, layout[i], 30);
        }
    }
}

} // verus!
