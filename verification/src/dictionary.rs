//! The word list of a game: reading it from text, finding what does not
//! belong to the alphabet, keeping the words of one length, checking a guess
//! against it and drawing the secret.

use rand::rngs::ThreadRng;
use rand::Rng;
use vstd::prelude::*;
use crate::evaluate::has_letter;
use crate::input::{lowercase, lowercased};
use crate::text::{copy_word, letters, same_word, views};

verus! {

/// The lines of `text` that a line feed ends, after `pending`, the letters
/// of the line that is being read. What follows the last line feed is no
/// word.
pub open spec fn lines_from(text: Seq<char>, pending: Seq<char>) -> Seq<Seq<char>>
    decreases text.len(),
{
    if text.len() == 0 {
        Seq::empty()
    } else if text[0] == '\n' {
        seq![pending] + lines_from(text.drop_first(), Seq::empty())
    } else {
        lines_from(text.drop_first(), pending.push(text[0]))
    }
}

/// The words of a dictionary text: one per line, each ended by a line feed.
pub open spec fn lines_of(text: Seq<char>) -> Seq<Seq<char>> {
    lines_from(text, Seq::empty())
}

/// The letters among the first `n` of `text` that are neither a line feed
/// nor in `alphabet`, each once, in the order of their first appearance.
pub open spec fn strangers_before(text: Seq<char>, alphabet: Seq<char>, n: int) -> Seq<char>
    decreases n,
{
    if n <= 0 {
        Seq::empty()
    } else {
        let found = strangers_before(text, alphabet, n - 1);
        let c = text[n - 1];
        if c != '\n' && !alphabet.contains(c) && !found.contains(c) {
            found.push(c)
        } else {
            found
        }
    }
}

/// The letters of `text` that are neither a line feed nor in `alphabet`,
/// each once, in the order of their first appearance.
pub open spec fn strangers(text: Seq<char>, alphabet: Seq<char>) -> Seq<char> {
    strangers_before(text, alphabet, text.len() as int)
}

/// The words of `length` letters, in their order.
pub open spec fn of_length(words: Seq<Seq<char>>, length: nat) -> Seq<Seq<char>> {
    words.filter(|word: Seq<char>| word.len() == length)
}

/// Why a guess is turned down.
#[derive(Clone, Copy, Debug, PartialEq, Eq, Structural)]
pub enum GuessError {
    /// The guess does not have the length of the secret.
    WrongLength,
    /// The guess has the right length but is not in the word list.
    UnknownWord,
}

/// What checking a guess of `guess` against a word list gives.
pub open spec fn guess_check(guess: Seq<char>, length: nat, words: Seq<Seq<char>>) -> Result<
    (),
    GuessError,
> {
    if guess.len() != length {
        Err(GuessError::WrongLength)
    } else if !words.contains(guess) {
        Err(GuessError::UnknownWord)
    } else {
        Ok(())
    }
}

/// Filtering a sequence that grew by one element.
proof fn lemma_filter_push<A>(items: Seq<A>, item: A, keep: spec_fn(A) -> bool)
    ensures
        items.push(item).filter(keep) == if keep(item) {
            items.filter(keep).push(item)
        } else {
            items.filter(keep)
        },
{
    reveal(Seq::filter);
    assert(items.push(item).drop_last() =~= items);
}

/// The views of a list that grew by one word.
proof fn lemma_views_push(words: Seq<Vec<char>>, word: Vec<char>)
    ensures
        views(words.push(word)) == views(words).push(word@),
{
    assert(views(words.push(word)) =~= views(words).push(word@));
}

/// A word list contains a word exactly when one of its entries is spelled so.
proof fn lemma_contains_prefix(words: Seq<Vec<char>>, word: Seq<char>, n: int)
    requires
        0 <= n <= words.len(),
        forall|j: int| 0 <= j < n ==> (#[trigger] words[j])@ != word,
    ensures
        !views(words).take(n).contains(word),
{
    let taken = views(words).take(n);
    if taken.contains(word) {
        let j = choose|j: int| 0 <= j < taken.len() && taken[j] == word;
        assert(words[j]@ == word);
    }
}

/// Splits a dictionary text into its words, one per line. Letters that
/// follow the last line feed are dropped.
pub fn split_words(text: &Vec<char>) -> (words: Vec<Vec<char>>)
    ensures
        views(words@) == lines_of(text@),
{
    let mut words: Vec<Vec<char>> = Vec::new();
    let mut pending: Vec<char> = Vec::new();
    let mut i: usize = 0;
    assert(text@.skip(0) =~= text@);
    assert(views(words@) =~= Seq::empty());
    assert(Seq::<Seq<char>>::empty() + lines_of(text@) =~= lines_of(text@));
    while i < text.len()
        invariant
            i <= text.len(),
            lines_of(text@) == views(words@) + lines_from(text@.skip(i as int), pending@),
        decreases text.len() - i,
    {
        let c = text[i];
        proof {
            let rest = text@.skip(i as int);
            assert(rest[0] == c);
            assert(rest.drop_first() =~= text@.skip(i + 1));
            if c == '\n' {
                lemma_views_push(words@, pending);
                let tail = lines_from(text@.skip(i + 1), Seq::empty());
                assert(views(words@) + (seq![pending@] + tail) =~= views(words@).push(pending@)
                    + tail);
            }
        }
        if c == '\n' {
            words.push(pending);
            pending = Vec::new();
        } else {
            pending.push(c);
        }
        i += 1;
    }
    assert(views(words@) + Seq::<Seq<char>>::empty() =~= views(words@));
    words
}

/// Reads the words of a dictionary text.
pub fn read_words(text: &str) -> (words: Vec<Vec<char>>)
    ensures
        views(words@) == lines_of(text@),
{
    let spelled = letters(text);
    split_words(&spelled)
}

/// Lists the letters of a dictionary text that the alphabet does not hold,
/// each once, in the order of their first appearance. Line feeds are not
/// letters.
pub fn foreign_letters(text: &Vec<char>, alphabet: &Vec<char>) -> (found: Vec<char>)
    ensures
        found@ == strangers(text@, alphabet@),
{
    let mut found: Vec<char> = Vec::new();
    let mut i: usize = 0;
    while i < text.len()
        invariant
            i <= text.len(),
            found@ == strangers_before(text@, alphabet@, i as int),
        decreases text.len() - i,
    {
        let c = text[i];
        if c != '\n' && !has_letter(alphabet, c) && !has_letter(&found, c) {
            found.push(c);
        }
        i += 1;
    }
    found
}

/// Keeps the words of `length` letters, in their order.
pub fn words_of_length(words: &Vec<Vec<char>>, length: usize) -> (kept: Vec<Vec<char>>)
    ensures
        views(kept@) == of_length(views(words@), length as nat),
{
    let ghost keep = |word: Seq<char>| word.len() == length as nat;
    let mut kept: Vec<Vec<char>> = Vec::new();
    let mut i: usize = 0;
    proof {
        reveal(Seq::filter);
        assert(views(kept@) =~= views(words@).take(0).filter(keep));
    }
    while i < words.len()
        invariant
            i <= words.len(),
            keep == |word: Seq<char>| word.len() == length as nat,
            views(kept@) == views(words@).take(i as int).filter(keep),
        decreases words.len() - i,
    {
        proof {
            let word = words@[i as int]@;
            assert(views(words@).take(i + 1) =~= views(words@).take(i as int).push(word));
            lemma_filter_push(views(words@).take(i as int), word, keep);
        }
        if words[i].len() == length {
            let copy = copy_word(&words[i]);
            proof {
                lemma_views_push(kept@, copy);
            }
            kept.push(copy);
        }
        i += 1;
    }
    assert(views(words@).take(i as int) =~= views(words@));
    kept
}

/// Whether the word list holds `word`.
pub fn is_known_word(words: &Vec<Vec<char>>, word: &Vec<char>) -> (known: bool)
    ensures
        known == views(words@).contains(word@),
{
    let mut i: usize = 0;
    while i < words.len()
        invariant
            i <= words.len(),
            forall|j: int| 0 <= j < i ==> (#[trigger] words@[j])@ != word@,
        decreases words.len() - i,
    {
        if same_word(&words[i], word) {
            assert(views(words@)[i as int] == word@);
            return true;
        }
        i += 1;
    }
    proof {
        lemma_contains_prefix(words@, word@, words.len() as int);
        assert(views(words@).take(words.len() as int) =~= views(words@));
    }
    false
}

/// Checks a guess before it is scored: it must have `length` letters and be
/// one of `words`. The length is checked first.
pub fn check_guess(guess: &Vec<char>, length: usize, words: &Vec<Vec<char>>) -> (checked: Result<
    (),
    GuessError,
>)
    ensures
        checked == guess_check(guess@, length as nat, views(words@)),
{
    if guess.len() != length {
        Err(GuessError::WrongLength)
    } else if !is_known_word(words, guess) {
        Err(GuessError::UnknownWord)
    } else {
        Ok(())
    }
}

/// The word at `index` of the list.
pub fn word_at(words: &Vec<Vec<char>>, index: usize) -> (word: Vec<char>)
    requires
        index < words.len(),
    ensures
        word@ == views(words@)[index as int],
{
    copy_word(&words[index])
}

/// A dictionary as the game holds it.
pub struct Dictionary {
    /// The words that can be guessed and drawn, all of one length.
    pub words: Vec<Vec<char>>,
    /// The letters found in the dictionary that the alphabet does not hold.
    pub foreign: Vec<char>,
}

/// Reads a dictionary as the game does: the text is put in lower case and
/// split into its lines, of which the words of `length` letters are kept.
/// The letters of the text that `alphabet` does not hold are listed beside
/// them, so that the player can be warned; no word is dropped on their
/// account.
pub fn load_dictionary(content: &str, alphabet: &Vec<char>, length: usize) -> (dictionary:
    Dictionary)
    ensures
        views(dictionary.words@) == of_length(lines_of(lowercased(content@)), length as nat),
        dictionary.foreign@ == strangers(lowercased(content@), alphabet@),
{
    let lowered = lowercase(content);
    let spelled = letters(lowered.as_str());
    let all = split_words(&spelled);
    Dictionary { words: words_of_length(&all, length), foreign: foreign_letters(&spelled, alphabet) }
}

/// The generator of random numbers that each thread owns.
#[verifier::external_type_specification]
#[verifier::external_body]
pub struct ExThreadRng(rand::rngs::ThreadRng);

/// Draws a number below `bound` with `rand::Rng::gen_range` on the range
/// `0..bound`. The number differs from call to call; all that is claimed is
/// that it lies in the range. The range must not be empty, and the call
/// fails only if the operating system can no longer supply randomness.
#[verifier::external_body]
fn random_below(rng: &mut ThreadRng, bound: usize) -> (index: usize)
    requires
        bound > 0,
    ensures
        index < bound,
{
    rng.gen_range(0..bound)
}

/// Draws the secret of a round from the word list, or `None` from an empty
/// list. Which word is drawn is left to chance.
pub fn draw_secret(rng: &mut ThreadRng, words: &Vec<Vec<char>>) -> (secret: Option<Vec<char>>)
    ensures
        secret.is_none() <==> words@.len() == 0,
        secret matches Some(word) ==> views(words@).contains(word@),
{
    if words.len() == 0 {
        None
    } else {
        let index = random_below(rng, words.len());
        let word = word_at(words, index);
        assert(views(words@)[index as int] == word@);
        Some(word)
    }
}

} // verus!
