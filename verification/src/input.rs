//! What the player types: tidying a line, and reading an answer out of it.

use vstd::prelude::*;
use crate::text::{letters, same_word};

verus! {

/// The lower-case form of a text, as `str::to_lowercase` gives it.
pub uninterp spec fn lowercased(text: Seq<char>) -> Seq<char>;

/// A text without its leading and trailing white space, as `str::trim`
/// gives it.
pub uninterp spec fn trimmed(text: Seq<char>) -> Seq<char>;

/// Puts a text in lower case with `str::to_lowercase`. The result follows
/// the Unicode tables of the standard library and is not spelled out here:
/// it is only given a name, [`lowercased`].
#[verifier::external_body]
pub(crate) fn lowercase(text: &str) -> (lowered: String)
    ensures
        lowered@ == lowercased(text@),
{
    text.to_lowercase()
}

/// Strips leading and trailing white space with `str::trim`. What counts as
/// white space follows the Unicode tables of the standard library and is
/// not spelled out here: the result is only given a name, [`trimmed`].
#[verifier::external_body]
pub(crate) fn trim(text: &str) -> (inner: &str)
    ensures
        inner@ == trimmed(text@),
{
    text.trim()
}

/// Tidies a line that the player typed: white space around it is removed,
/// and what is left is put in lower case.
pub fn normalize(raw: &str) -> (line: String)
    ensures
        line@ == lowercased(trimmed(raw@)),
{
    lowercase(trim(raw))
}

/// Whether `input` is the first letter of `word` and nothing else.
pub open spec fn abbreviates(input: Seq<char>, word: Seq<char>) -> bool {
    word.len() > 0 && input == seq![word[0]]
}

/// The answer that `input` gives to a yes-or-no question: yes if it is the
/// word for yes or its first letter, no if it is the word for no or its first
/// letter, and none otherwise. Yes is tried first.
pub open spec fn answer_of(input: Seq<char>, yes: Seq<char>, no: Seq<char>) -> Option<bool> {
    if abbreviates(input, yes) || input == yes {
        Some(true)
    } else if abbreviates(input, no) || input == no {
        Some(false)
    } else {
        None
    }
}

/// Whether `input` is `word` or the first letter of `word`.
fn stands_for(input: &Vec<char>, word: &Vec<char>) -> (matches: bool)
    ensures
        matches == (abbreviates(input@, word@) || input@ == word@),
{
    if same_word(input, word) {
        return true;
    }
    if word.len() > 0 && input.len() == 1 {
        assert(input@ =~= seq![input@[0]]);
        assert(seq![word@[0]][0] == word@[0]);
        input[0] == word[0]
    } else {
        false
    }
}

/// Reads the answer to a yes-or-no question. `yes` and `no` are the words
/// of the language; their first letters are accepted as well. Returns
/// `None` where the input is neither, so that the question can be asked again.
pub fn parse_yes_no(input: &str, yes: &str, no: &str) -> (answer: Option<bool>)
    ensures
        answer == answer_of(input@, yes@, no@),
{
    let typed = letters(input);
    if stands_for(&typed, &letters(yes)) {
        Some(true)
    } else if stands_for(&typed, &letters(no)) {
        Some(false)
    } else {
        None
    }
}

} // verus!
