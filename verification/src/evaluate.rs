//! Scoring a guess against the secret word.
//!
//! A guess is scored position by position. A letter that stands where the
//! secret has it is `Correct`. A letter that the secret holds elsewhere is
//! `Present`, but only as often as the secret can supply it: where a guess
//! repeats a letter more often than the secret does, the surplus is `Absent`,
//! taken from the misplaced occurrences in left-to-right order.

use vstd::prelude::*;
use crate::verdict::LetterVerdict;

verus! {

/// How many of the first `n` letters of `word` are `c`.
pub open spec fn occurrences(word: Seq<char>, c: char, n: int) -> nat
    decreases n,
{
    if n <= 0 {
        0
    } else {
        occurrences(word, c, n - 1) + if word[n - 1] == c { 1nat } else { 0nat }
    }
}

/// How often `c` occurs in `word`.
pub open spec fn letter_count(word: Seq<char>, c: char) -> nat {
    occurrences(word, c, word.len() as int)
}

/// How many of the first `n` positions hold `c` in both `secret` and `guess`.
pub open spec fn matched_before(secret: Seq<char>, guess: Seq<char>, c: char, n: int) -> nat
    decreases n,
{
    if n <= 0 {
        0
    } else {
        matched_before(secret, guess, c, n - 1) + if guess[n - 1] == c && secret[n - 1] == c {
            1nat
        } else {
            0nat
        }
    }
}

/// How many of the first `n` positions hold `c` in `guess` where `secret`
/// holds another letter.
pub open spec fn misplaced_before(secret: Seq<char>, guess: Seq<char>, c: char, n: int) -> nat
    decreases n,
{
    if n <= 0 {
        0
    } else {
        misplaced_before(secret, guess, c, n - 1) + if guess[n - 1] == c && secret[n - 1] != c {
            1nat
        } else {
            0nat
        }
    }
}

/// How many misplaced occurrences of `c` the guess holds beyond what the
/// secret can still supply once the exact matches are set aside.
pub open spec fn excess(secret: Seq<char>, guess: Seq<char>, c: char) -> nat {
    let exact = matched_before(secret, guess, c, guess.len() as int);
    let wanted = letter_count(guess, c) - exact;
    let supplied = letter_count(secret, c) - exact;
    if wanted > supplied {
        (wanted - supplied) as nat
    } else {
        0
    }
}

/// The verdict of the first pass, which looks at one position at a time.
pub open spec fn provisional_at(secret: Seq<char>, guess: Seq<char>, i: int) -> LetterVerdict {
    if guess[i] == secret[i] {
        LetterVerdict::Correct
    } else if secret.contains(guess[i]) {
        LetterVerdict::Present
    } else {
        LetterVerdict::Absent
    }
}

/// The final verdict for position `i` of `guess`.
///
/// A provisional `Present` is kept unless the position is among the first
/// `excess` misplaced occurrences of its letter, counted from the left.
pub open spec fn verdict_at(secret: Seq<char>, guess: Seq<char>, i: int) -> LetterVerdict {
    let c = guess[i];
    match provisional_at(secret, guess, i) {
        LetterVerdict::Present => if misplaced_before(secret, guess, c, i) < excess(
            secret,
            guess,
            c,
        ) {
            LetterVerdict::Absent
        } else {
            LetterVerdict::Present
        },
        v => v,
    }
}

/// The first-pass scoring of a whole guess.
pub open spec fn provisional(secret: Seq<char>, guess: Seq<char>) -> Seq<(char, LetterVerdict)> {
    Seq::new(guess.len(), |i: int| (guess[i], provisional_at(secret, guess, i)))
}

/// The scoring of a whole guess: each letter with its final verdict.
pub open spec fn evaluation(secret: Seq<char>, guess: Seq<char>) -> Seq<(char, LetterVerdict)> {
    Seq::new(guess.len(), |i: int| (guess[i], verdict_at(secret, guess, i)))
}

/// How many of the first `n` entries of a scored guess claim an occurrence of
/// `c` in the secret, as `Correct` or as `Present`.
pub open spec fn claims_before(scored: Seq<(char, LetterVerdict)>, c: char, n: int) -> nat
    decreases n,
{
    if n <= 0 {
        0
    } else {
        claims_before(scored, c, n - 1) + if scored[n - 1].0 == c && scored[n - 1].1.is_claim() {
            1nat
        } else {
            0nat
        }
    }
}

/// How many entries of a scored guess claim an occurrence of `c` in the secret.
pub open spec fn claims(scored: Seq<(char, LetterVerdict)>, c: char) -> nat {
    claims_before(scored, c, scored.len() as int)
}

/// The letter of one entry of a scored guess.
pub open spec fn letter_of(entry: (char, LetterVerdict)) -> char {
    entry.0
}

/// The guess that was scored: the letters of a scored guess, in their order.
pub open spec fn guess_of(scored: Seq<(char, LetterVerdict)>) -> Seq<char> {
    scored.map_values(|entry: (char, LetterVerdict)| letter_of(entry))
}

/// Whether every entry of a scored guess is `Correct`.
pub open spec fn all_correct(scored: Seq<(char, LetterVerdict)>) -> bool {
    forall|i: int| 0 <= i < scored.len() ==> (#[trigger] scored[i]).1 == LetterVerdict::Correct
}

/// A prefix of length `n` holds a letter at most `n` times.
pub proof fn lemma_occurrences_bounded(word: Seq<char>, c: char, n: int)
    requires
        0 <= n,
    ensures
        occurrences(word, c, n) <= n,
    decreases n,
{
    if n > 0 {
        lemma_occurrences_bounded(word, c, n - 1);
    }
}

/// A prefix holds a letter at least once exactly when one of its positions does.
pub proof fn lemma_occurrences_positive(word: Seq<char>, c: char, n: int)
    requires
        0 <= n <= word.len(),
    ensures
        occurrences(word, c, n) > 0 <==> exists|i: int| 0 <= i < n && word[i] == c,
    decreases n,
{
    if n > 0 {
        lemma_occurrences_positive(word, c, n - 1);
        if occurrences(word, c, n) > 0 {
            if word[n - 1] == c {
                assert(0 <= n - 1 < n && word[n - 1] == c);
            } else {
                let i = choose|i: int| 0 <= i < n - 1 && word[i] == c;
                assert(0 <= i < n && word[i] == c);
            }
        }
        if exists|i: int| 0 <= i < n && word[i] == c {
            let i = choose|i: int| 0 <= i < n && word[i] == c;
            if i < n - 1 {
                assert(0 <= i < n - 1 && word[i] == c);
            }
        }
    }
}

/// A word contains a letter exactly when its count of that letter is positive.
pub proof fn lemma_contains_iff_counted(word: Seq<char>, c: char)
    ensures
        word.contains(c) <==> letter_count(word, c) > 0,
{
    lemma_occurrences_positive(word, c, word.len() as int);
    if word.contains(c) {
        let i = choose|i: int| 0 <= i < word.len() && word[i] == c;
        assert(0 <= i < word.len() && word[i] == c);
    }
    if letter_count(word, c) > 0 {
        let i = choose|i: int| 0 <= i < word.len() && word[i] == c;
        assert(word[i] == c);
    }
}

/// Every occurrence of a letter in the guess is either an exact match or
/// misplaced, and the secret holds the letter at least as often as it is matched.
pub proof fn lemma_occurrences_split(secret: Seq<char>, guess: Seq<char>, c: char, n: int)
    requires
        0 <= n <= guess.len(),
        secret.len() == guess.len(),
    ensures
        matched_before(secret, guess, c, n) + misplaced_before(secret, guess, c, n) == occurrences(
            guess,
            c,
            n,
        ),
        matched_before(secret, guess, c, n) <= occurrences(secret, c, n),
    decreases n,
{
    if n > 0 {
        lemma_occurrences_split(secret, guess, c, n - 1);
    }
}

/// The number of misplaced occurrences grows with the prefix.
pub proof fn lemma_misplaced_monotone(secret: Seq<char>, guess: Seq<char>, c: char, i: int, n: int)
    requires
        0 <= i <= n,
    ensures
        misplaced_before(secret, guess, c, i) <= misplaced_before(secret, guess, c, n),
    decreases n - i,
{
    if i < n {
        lemma_misplaced_monotone(secret, guess, c, i, n - 1);
    }
}

/// The excess is what the guess holds of a letter beyond the secret's count.
pub proof fn lemma_excess_is_overshoot(secret: Seq<char>, guess: Seq<char>, c: char)
    requires
        secret.len() == guess.len(),
    ensures
        excess(secret, guess, c) == if letter_count(guess, c) > letter_count(secret, c) {
            letter_count(guess, c) - letter_count(secret, c)
        } else {
            0
        },
        excess(secret, guess, c) <= misplaced_before(secret, guess, c, guess.len() as int),
{
    lemma_occurrences_split(secret, guess, c, guess.len() as int);
}

/// Among the first `n` positions, the claims on `c` are its exact matches
/// together with the misplaced occurrences that follow the first `excess` ones.
proof fn lemma_claims_prefix(secret: Seq<char>, guess: Seq<char>, c: char, n: int)
    requires
        0 <= n <= guess.len(),
        secret.len() == guess.len(),
    ensures
        claims_before(evaluation(secret, guess), c, n) == matched_before(secret, guess, c, n) + (
        if misplaced_before(secret, guess, c, n) > excess(secret, guess, c) {
            misplaced_before(secret, guess, c, n) - excess(secret, guess, c)
        } else {
            0
        }),
    decreases n,
{
    if n > 0 {
        lemma_claims_prefix(secret, guess, c, n - 1);
        let scored = evaluation(secret, guess);
        assert(scored[n - 1] == (guess[n - 1], verdict_at(secret, guess, n - 1)));
        if guess[n - 1] == c && secret[n - 1] != c && !secret.contains(c) {
            lemma_contains_iff_counted(secret, c);
            lemma_excess_is_overshoot(secret, guess, c);
            lemma_occurrences_split(secret, guess, c, guess.len() as int);
            lemma_misplaced_monotone(secret, guess, c, n, guess.len() as int);
        }
    }
}

/// No letter is claimed more often than the secret holds it: the `Correct`
/// and `Present` verdicts given to a letter never outnumber its occurrences
/// in the secret.
pub proof fn lemma_claims_bounded(secret: Seq<char>, guess: Seq<char>, c: char)
    requires
        secret.len() == guess.len(),
    ensures
        claims(evaluation(secret, guess), c) <= letter_count(secret, c),
{
    lemma_claims_prefix(secret, guess, c, guess.len() as int);
    lemma_occurrences_split(secret, guess, c, guess.len() as int);
}

/// A letter that the guess holds no more often than the secret does is never
/// demoted: each of its occurrences is `Correct` or `Present`.
pub proof fn lemma_no_excess_no_demotion(secret: Seq<char>, guess: Seq<char>, i: int)
    requires
        secret.len() == guess.len(),
        0 <= i < guess.len(),
        letter_count(guess, guess[i]) <= letter_count(secret, guess[i]),
    ensures
        verdict_at(secret, guess, i).is_claim(),
{
    let c = guess[i];
    lemma_excess_is_overshoot(secret, guess, c);
    lemma_occurrences_positive(guess, c, guess.len() as int);
    lemma_contains_iff_counted(secret, c);
}

/// Guessing the secret itself scores every position `Correct`.
pub proof fn lemma_secret_scores_all_correct(secret: Seq<char>)
    ensures
        all_correct(evaluation(secret, secret)),
        forall|i: int|
            0 <= i < secret.len() ==> #[trigger] evaluation(secret, secret)[i] == (
                secret[i],
                LetterVerdict::Correct,
            ),
{
}

/// Every position is scored `Correct` only for the secret itself.
pub proof fn lemma_all_correct_iff_equal(secret: Seq<char>, guess: Seq<char>)
    requires
        secret.len() == guess.len(),
    ensures
        all_correct(evaluation(secret, guess)) <==> guess == secret,
{
    let scored = evaluation(secret, guess);
    if all_correct(scored) {
        assert forall|i: int| 0 <= i < guess.len() implies guess[i] == secret[i] by {
            assert(scored[i].1 == LetterVerdict::Correct);
        }
        assert(guess =~= secret);
    }
}

/// Scoring depends on nothing but the two words: equal inputs give equal
/// results.
pub proof fn lemma_evaluation_deterministic(
    secret_a: Seq<char>,
    guess_a: Seq<char>,
    secret_b: Seq<char>,
    guess_b: Seq<char>,
)
    requires
        secret_a == secret_b,
        guess_a == guess_b,
    ensures
        evaluation(secret_a, guess_a) == evaluation(secret_b, guess_b),
{
}

/// A scored guess never holds `Unused`, and repeats the letters of the guess.
pub proof fn lemma_evaluation_shape(secret: Seq<char>, guess: Seq<char>)
    ensures
        evaluation(secret, guess).len() == guess.len(),
        forall|i: int|
            0 <= i < guess.len() ==> (#[trigger] evaluation(secret, guess)[i]).0 == guess[i]
                && evaluation(secret, guess)[i].1 != LetterVerdict::Unused,
{
}

/// A scored guess spells the guess that was scored.
pub proof fn lemma_guess_of_evaluation(secret: Seq<char>, guess: Seq<char>)
    ensures
        guess_of(evaluation(secret, guess)) == guess,
{
    assert(guess_of(evaluation(secret, guess)) =~= guess);
}

/// Counts how often `c` occurs in `word`.
pub fn count_letter(word: &Vec<char>, c: char) -> (count: usize)
    ensures
        count == letter_count(word@, c),
{
    let mut count: usize = 0;
    let mut i: usize = 0;
    while i < word.len()
        invariant
            i <= word.len(),
            count == occurrences(word@, c, i as int),
            count <= i,
        decreases word.len() - i,
    {
        if word[i] == c {
            count += 1;
        }
        i += 1;
    }
    count
}

/// Whether `word` holds the letter `c`.
pub fn has_letter(word: &Vec<char>, c: char) -> (found: bool)
    ensures
        found == word@.contains(c),
{
    let mut i: usize = 0;
    while i < word.len()
        invariant
            i <= word.len(),
            forall|j: int| 0 <= j < i ==> word@[j] != c,
        decreases word.len() - i,
    {
        if word[i] == c {
            return true;
        }
        i += 1;
    }
    false
}

/// Counts the positions at which `secret` and `guess` both hold `c`.
pub fn count_matched(secret: &Vec<char>, guess: &Vec<char>, c: char) -> (count: usize)
    requires
        secret.len() == guess.len(),
    ensures
        count == matched_before(secret@, guess@, c, guess.len() as int),
{
    let mut count: usize = 0;
    let mut i: usize = 0;
    while i < guess.len()
        invariant
            i <= guess.len(),
            secret.len() == guess.len(),
            count == matched_before(secret@, guess@, c, i as int),
            count <= i,
        decreases guess.len() - i,
    {
        if guess[i] == c && secret[i] == c {
            count += 1;
        }
        i += 1;
    }
    count
}

/// Counts the positions before `upto` at which `guess` holds `c` and
/// `secret` does not.
pub fn count_misplaced(secret: &Vec<char>, guess: &Vec<char>, c: char, upto: usize) -> (count:
    usize)
    requires
        secret.len() == guess.len(),
        upto <= guess.len(),
    ensures
        count == misplaced_before(secret@, guess@, c, upto as int),
{
    let mut count: usize = 0;
    let mut i: usize = 0;
    while i < upto
        invariant
            i <= upto <= guess.len(),
            secret.len() == guess.len(),
            count == misplaced_before(secret@, guess@, c, i as int),
            count <= i,
        decreases upto - i,
    {
        if guess[i] == c && secret[i] != c {
            count += 1;
        }
        i += 1;
    }
    count
}

/// Computes how many misplaced occurrences of `c` must be demoted.
pub fn surplus(secret: &Vec<char>, guess: &Vec<char>, c: char) -> (count: usize)
    requires
        secret.len() == guess.len(),
    ensures
        count == excess(secret@, guess@, c),
{
    let exact = count_matched(secret, guess, c);
    let in_guess = count_letter(guess, c);
    let in_secret = count_letter(secret, c);
    proof {
        lemma_occurrences_split(secret@, guess@, c, guess.len() as int);
    }
    let wanted = in_guess - exact;
    let supplied = in_secret - exact;
    if wanted > supplied {
        wanted - supplied
    } else {
        0
    }
}

/// The first pass: marks each position `Correct`, `Present` or `Absent` by
/// looking at that position alone.
pub fn first_pass(secret: &Vec<char>, guess: &Vec<char>) -> (scored: Vec<(char, LetterVerdict)>)
    requires
        secret.len() == guess.len(),
    ensures
        scored@ == provisional(secret@, guess@),
{
    let mut scored: Vec<(char, LetterVerdict)> = Vec::with_capacity(guess.len());
    let mut i: usize = 0;
    while i < guess.len()
        invariant
            i <= guess.len(),
            secret.len() == guess.len(),
            scored@.len() == i,
            forall|j: int| 0 <= j < i ==> scored@[j] == provisional(secret@, guess@)[j],
        decreases guess.len() - i,
    {
        let c = guess[i];
        let verdict = if c == secret[i] {
            LetterVerdict::Correct
        } else if has_letter(secret, c) {
            LetterVerdict::Present
        } else {
            LetterVerdict::Absent
        };
        scored.push((c, verdict));
        i += 1;
    }
    assert(scored@ =~= provisional(secret@, guess@));
    scored
}

/// The second pass: demotes to `Absent` the first `excess` provisional
/// `Present` verdicts of each letter, from left to right. `Correct` and
/// `Absent` verdicts are left as they are.
pub fn reconcile(secret: &Vec<char>, guess: &Vec<char>, scored: &mut Vec<(char, LetterVerdict)>)
    requires
        secret.len() == guess.len(),
        old(scored)@ == provisional(secret@, guess@),
    ensures
        final(scored)@ == evaluation(secret@, guess@),
{
    let mut i: usize = 0;
    while i < guess.len()
        invariant
            i <= guess.len(),
            secret.len() == guess.len(),
            scored@.len() == guess.len(),
            forall|j: int| 0 <= j < i ==> scored@[j] == evaluation(secret@, guess@)[j],
            forall|j: int| i <= j < guess.len() ==> scored@[j] == provisional(secret@, guess@)[j],
        decreases guess.len() - i,
    {
        let (c, verdict) = scored[i];
        if verdict == LetterVerdict::Present {
            let demoted_so_far = count_misplaced(secret, guess, c, i);
            if demoted_so_far < surplus(secret, guess, c) {
                scored.set(i, (c, LetterVerdict::Absent));
            }
        }
        i += 1;
    }
    assert(scored@ =~= evaluation(secret@, guess@));
}

/// Scores `guess` against `secret`.
///
/// The result pairs each letter of the guess with its verdict. No letter is
/// claimed, as `Correct` or `Present`, more often than the secret holds it,
/// and every position is `Correct` exactly when the guess is the secret.
pub fn evaluate(secret: &Vec<char>, guess: &Vec<char>) -> (scored: Vec<(char, LetterVerdict)>)
    requires
        secret.len() == guess.len(),
    ensures
        scored@ == evaluation(secret@, guess@),
        forall|c: char| claims(scored@, c) <= letter_count(secret@, c),
        all_correct(scored@) <==> guess@ == secret@,
{
    let mut scored = first_pass(secret, guess);
    reconcile(secret, guess, &mut scored);
    proof {
        assert forall|c: char| claims(scored@, c) <= letter_count(secret@, c) by {
            lemma_claims_bounded(secret@, guess@, c);
        }
        lemma_all_correct_iff_equal(secret@, guess@);
    }
    scored
}

/// Whether every position of a scored guess is `Correct`.
pub fn is_all_correct(scored: &Vec<(char, LetterVerdict)>) -> (all: bool)
    ensures
        all == all_correct(scored@),
{
    let mut i: usize = 0;
    while i < scored.len()
        invariant
            i <= scored.len(),
            forall|j: int| 0 <= j < i ==> (#[trigger] scored@[j]).1 == LetterVerdict::Correct,
        decreases scored.len() - i,
    {
        if scored[i].1 != LetterVerdict::Correct {
            return false;
        }
        i += 1;
    }
    true
}

} // verus!
