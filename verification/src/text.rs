//! Words as sequences of letters.

use vstd::prelude::*;

verus! {

/// The words of a list, each as a sequence of letters.
pub open spec fn views(words: Seq<Vec<char>>) -> Seq<Seq<char>> {
    words.map_values(|word: Vec<char>| word@)
}

/// Spells out the letters of `text`.
pub fn letters(text: &str) -> (word: Vec<char>)
    ensures
        word@ == text@,
{
    let mut word: Vec<char> = Vec::new();
    for c in it: text.chars()
        invariant
            it.seq() == text@,
            word@ == it.seq().take(it.index() as int),
    {
        word.push(c);
    }
    word
}

/// Whether two words are spelled alike.
pub fn same_word(left: &Vec<char>, right: &Vec<char>) -> (same: bool)
    ensures
        same == (left@ == right@),
{
    if left.len() != right.len() {
        return false;
    }
    let mut i: usize = 0;
    while i < left.len()
        invariant
            i <= left.len(),
            left.len() == right.len(),
            forall|j: int| 0 <= j < i ==> left@[j] == right@[j],
        decreases left.len() - i,
    {
        if left[i] != right[i] {
            return false;
        }
        i += 1;
    }
    assert(left@ =~= right@);
    true
}

/// Copies a word.
pub fn copy_word(word: &Vec<char>) -> (copy: Vec<char>)
    ensures
        copy@ == word@,
{
    let mut copy: Vec<char> = Vec::with_capacity(word.len());
    let mut i: usize = 0;
    while i < word.len()
        invariant
            i <= word.len(),
            copy@ == word@.take(i as int),
        decreases word.len() - i,
    {
        copy.push(word[i]);
        assert(word@.take(i + 1) =~= word@.take(i as int).push(word@[i as int]));
        i += 1;
    }
    assert(word@.take(i as int) =~= word@);
    copy
}

/// Whether two texts are spelled alike.
pub fn same_text(left: &str, right: &str) -> (same: bool)
    ensures
        same == (left@ == right@),
{
    same_word(&letters(left), &letters(right))
}

} // verus!
