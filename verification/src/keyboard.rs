//! The keyboard of a round: for every letter of the alphabet, the strongest
//! verdict that any guess has given it so far.

use std::collections::HashMap;
use vstd::prelude::*;
use crate::verdict::LetterVerdict;

verus! {

broadcast use vstd::std_specs::hash::group_hash_axioms;

/// The strongest verdict that the first `n` entries of a scored guess give
/// to the letter `c`; `Unused` where none of them holds `c`.
pub open spec fn strongest_before(scored: Seq<(char, LetterVerdict)>, c: char, n: int) -> LetterVerdict
    decreases n,
{
    if n <= 0 {
        LetterVerdict::Unused
    } else if scored[n - 1].0 == c {
        strongest_before(scored, c, n - 1).max(scored[n - 1].1)
    } else {
        strongest_before(scored, c, n - 1)
    }
}

/// The strongest verdict that a scored guess gives to the letter `c`.
pub open spec fn strongest(scored: Seq<(char, LetterVerdict)>, c: char) -> LetterVerdict {
    strongest_before(scored, c, scored.len() as int)
}

/// The keyboard of a new round: every letter of the alphabet is `Unused`.
pub open spec fn fresh(alphabet: Seq<char>) -> Map<char, LetterVerdict> {
    Map::new(|c: char| alphabet.contains(c), |c: char| LetterVerdict::Unused)
}

/// Whether every letter of `word` is a key of the keyboard.
pub open spec fn covers(state: Map<char, LetterVerdict>, word: Seq<char>) -> bool {
    forall|i: int| 0 <= i < word.len() ==> state.contains_key(#[trigger] word[i])
}

/// Whether every letter of a scored guess is a key of the keyboard.
pub open spec fn covers_scored(
    state: Map<char, LetterVerdict>,
    scored: Seq<(char, LetterVerdict)>,
) -> bool {
    forall|i: int| 0 <= i < scored.len() ==> state.contains_key((#[trigger] scored[i]).0)
}

/// The keyboard after a scored guess has been folded in: each letter keeps
/// the stronger of its verdict so far and the strongest the guess gave it.
pub open spec fn folded(
    state: Map<char, LetterVerdict>,
    scored: Seq<(char, LetterVerdict)>,
) -> Map<char, LetterVerdict> {
    Map::new(|c: char| state.contains_key(c), |c: char| state[c].max(strongest(scored, c)))
}

/// The keyboard after the first `n` scored guesses of `history` have been
/// folded in, one after the other.
pub open spec fn folded_all(
    state: Map<char, LetterVerdict>,
    history: Seq<Seq<(char, LetterVerdict)>>,
    n: int,
) -> Map<char, LetterVerdict>
    decreases n,
{
    if n <= 0 {
        state
    } else {
        folded(folded_all(state, history, n - 1), history[n - 1])
    }
}

/// The strongest verdict that the first `n` scored guesses of `history`
/// give to the letter `c`; `Unused` where none of them holds `c`.
pub open spec fn strongest_in(
    history: Seq<Seq<(char, LetterVerdict)>>,
    c: char,
    n: int,
) -> LetterVerdict
    decreases n,
{
    if n <= 0 {
        LetterVerdict::Unused
    } else {
        strongest_in(history, c, n - 1).max(strongest(history[n - 1], c))
    }
}

/// What the first `n` guesses give to a letter does not depend on the
/// guesses that follow them.
pub proof fn lemma_strongest_in_prefix(
    history: Seq<Seq<(char, LetterVerdict)>>,
    scored: Seq<(char, LetterVerdict)>,
    c: char,
    n: int,
)
    requires
        0 <= n <= history.len(),
    ensures
        strongest_in(history.push(scored), c, n) == strongest_in(history, c, n),
    decreases n,
{
    if n > 0 {
        lemma_strongest_in_prefix(history, scored, c, n - 1);
        assert(history.push(scored)[n - 1] == history[n - 1]);
    }
}

/// Folding a guess in never weakens what the keyboard says of a letter, and
/// neither adds nor removes a letter.
pub proof fn lemma_fold_monotone(
    state: Map<char, LetterVerdict>,
    scored: Seq<(char, LetterVerdict)>,
    c: char,
)
    ensures
        folded(state, scored).contains_key(c) == state.contains_key(c),
        state.contains_key(c) ==> folded(state, scored)[c].strength() >= state[c].strength(),
{
}

/// Across any run of folds within a round, the verdict of a letter only
/// grows in strength: the keyboard after `j` guesses says at least as much
/// of every letter as it did after the first `i` of them.
pub proof fn lemma_folds_monotone(
    state: Map<char, LetterVerdict>,
    history: Seq<Seq<(char, LetterVerdict)>>,
    i: int,
    j: int,
    c: char,
)
    requires
        0 <= i <= j,
    ensures
        folded_all(state, history, j).contains_key(c) == state.contains_key(c),
        folded_all(state, history, i).contains_key(c) == state.contains_key(c),
        state.contains_key(c) ==> folded_all(state, history, j)[c].strength() >= folded_all(
            state,
            history,
            i,
        )[c].strength(),
    decreases j,
{
    if j > 0 {
        if i < j {
            lemma_folds_monotone(state, history, i, j - 1, c);
            lemma_fold_monotone(folded_all(state, history, j - 1), history[j - 1], c);
        } else {
            lemma_folds_monotone(state, history, i - 1, j - 1, c);
        }
    }
}

/// A letter that none of the first `n` entries holds is given nothing by them.
proof fn lemma_strongest_of_missing(scored: Seq<(char, LetterVerdict)>, c: char, n: int)
    requires
        0 <= n <= scored.len(),
        forall|i: int| 0 <= i < n ==> (#[trigger] scored[i]).0 != c,
    ensures
        strongest_before(scored, c, n) == LetterVerdict::Unused,
    decreases n,
{
    if n > 0 {
        lemma_strongest_of_missing(scored, c, n - 1);
    }
}

/// A letter that a guess does not hold keeps its verdict.
pub proof fn lemma_fold_keeps_other_letters(
    state: Map<char, LetterVerdict>,
    scored: Seq<(char, LetterVerdict)>,
    c: char,
)
    requires
        state.contains_key(c),
        forall|i: int| 0 <= i < scored.len() ==> (#[trigger] scored[i]).0 != c,
    ensures
        folded(state, scored)[c] == state[c],
{
    lemma_strongest_of_missing(scored, c, scored.len() as int);
}

/// A letter that a guess holds stands, once the guess is folded in, at
/// least as strong as each verdict the guess gave it.
pub proof fn lemma_fold_raises_guessed_letters(
    state: Map<char, LetterVerdict>,
    scored: Seq<(char, LetterVerdict)>,
    i: int,
)
    requires
        0 <= i < scored.len(),
        state.contains_key(scored[i].0),
    ensures
        folded(state, scored)[scored[i].0].strength() >= scored[i].1.strength(),
{
    lemma_strongest_dominates(scored, i, scored.len() as int);
}

/// The strongest verdict of a letter is at least each verdict the guess gave it.
proof fn lemma_strongest_dominates(scored: Seq<(char, LetterVerdict)>, i: int, n: int)
    requires
        0 <= i < n <= scored.len(),
    ensures
        strongest_before(scored, scored[i].0, n).strength() >= scored[i].1.strength(),
    decreases n,
{
    if i < n - 1 {
        lemma_strongest_dominates(scored, i, n - 1);
    }
}

/// The code point under which a letter is stored.
spec fn code(c: char) -> u32 {
    c as u32
}

/// A map keyed by code points, read as a map keyed by letters.
spec fn by_letter(states: Map<u32, LetterVerdict>) -> Map<char, LetterVerdict> {
    Map::new(|c: char| states.contains_key(code(c)), |c: char| states[code(c)])
}

/// Distinct letters have distinct code points.
proof fn lemma_code_injective(c: char, d: char)
    ensures
        code(c) == code(d) <==> c == d,
{
}

/// Storing a verdict under a letter's code point changes that letter alone.
proof fn lemma_store(states: Map<u32, LetterVerdict>, c: char, verdict: LetterVerdict)
    ensures
        by_letter(states.insert(code(c), verdict)) == by_letter(states).insert(c, verdict),
{
    assert forall|d: char| d != c implies code(d) != code(c) by {
        lemma_code_injective(c, d);
    }
    assert(by_letter(states.insert(code(c), verdict)) =~= by_letter(states).insert(c, verdict));
}

/// The fresh keyboard of an alphabet extended by one letter.
proof fn lemma_fresh_push(alphabet: Seq<char>, c: char)
    ensures
        fresh(alphabet.push(c)) == fresh(alphabet).insert(c, LetterVerdict::Unused),
{
    let longer = alphabet.push(c);
    assert forall|d: char| longer.contains(d) <==> (alphabet.contains(d) || d == c) by {
        if longer.contains(d) {
            let j = choose|j: int| 0 <= j < longer.len() && longer[j] == d;
            if j < alphabet.len() {
                assert(alphabet[j] == d);
            }
        }
        if alphabet.contains(d) {
            let j = choose|j: int| 0 <= j < alphabet.len() && alphabet[j] == d;
            assert(longer[j] == d);
        }
        if d == c {
            assert(longer[alphabet.len() as int] == d);
        }
    }
    assert(fresh(longer) =~= fresh(alphabet).insert(c, LetterVerdict::Unused));
}

/// Computes the code point under which a letter is stored.
fn key_of(c: char) -> (key: u32)
    ensures
        key == code(c),
{
    c as u32
}

/// The per-letter state of a round.
pub struct KeyboardState {
    states: HashMap<u32, LetterVerdict>,
}

impl View for KeyboardState {
    type V = Map<char, LetterVerdict>;

    /// The keyboard as a map from each letter of the alphabet to its verdict.
    closed spec fn view(&self) -> Map<char, LetterVerdict> {
        by_letter(self.states@)
    }
}

impl KeyboardState {
    /// Starts a round: every letter of `alphabet` is `Unused`.
    pub fn new(alphabet: &Vec<char>) -> (keyboard: KeyboardState)
        ensures
            keyboard@ == fresh(alphabet@),
    {
        let mut states: HashMap<u32, LetterVerdict> = HashMap::new();
        let mut i: usize = 0;
        assert(by_letter(states@) =~= fresh(alphabet@.take(0)));
        while i < alphabet.len()
            invariant
                i <= alphabet.len(),
                by_letter(states@) == fresh(alphabet@.take(i as int)),
            decreases alphabet.len() - i,
        {
            let c = alphabet[i];
            proof {
                lemma_store(states@, c, LetterVerdict::Unused);
                lemma_fresh_push(alphabet@.take(i as int), c);
                assert(alphabet@.take(i + 1) =~= alphabet@.take(i as int).push(c));
            }
            states.insert(key_of(c), LetterVerdict::Unused);
            i += 1;
        }
        assert(alphabet@.take(i as int) =~= alphabet@);
        let keyboard = KeyboardState { states };
        keyboard
    }

    /// The verdict of the letter `c`, or `None` where the alphabet lacks it.
    pub fn get(&self, c: char) -> (verdict: Option<LetterVerdict>)
        ensures
            verdict == if self@.contains_key(c) {
                Some(self@[c])
            } else {
                None
            },
    {
        let key = key_of(c);
        match self.states.get(&key) {
            Some(state) => Some(*state),
            None => None,
        }
    }

    /// Whether the alphabet holds the letter `c`.
    pub fn has_key(&self, c: char) -> (found: bool)
        ensures
            found == self@.contains_key(c),
    {
        let key = key_of(c);
        self.states.contains_key(&key)
    }

    /// Whether the alphabet holds every letter of `word`.
    pub fn covers_word(&self, word: &Vec<char>) -> (all: bool)
        ensures
            all == covers(self@, word@),
    {
        let mut i: usize = 0;
        while i < word.len()
            invariant
                i <= word.len(),
                forall|j: int| 0 <= j < i ==> self@.contains_key(#[trigger] word@[j]),
            decreases word.len() - i,
        {
            if !self.has_key(word[i]) {
                return false;
            }
            i += 1;
        }
        true
    }

    /// Whether the alphabet holds every letter of a scored guess.
    pub fn covers_guess(&self, scored: &Vec<(char, LetterVerdict)>) -> (all: bool)
        ensures
            all == covers_scored(self@, scored@),
    {
        let mut i: usize = 0;
        while i < scored.len()
            invariant
                i <= scored.len(),
                forall|j: int| 0 <= j < i ==> self@.contains_key((#[trigger] scored@[j]).0),
            decreases scored.len() - i,
        {
            if !self.has_key(scored[i].0) {
                return false;
            }
            i += 1;
        }
        true
    }

    /// Folds a scored guess into the keyboard: every letter of the guess is
    /// raised to the stronger of its verdict so far and the verdict the guess
    /// gave it. No verdict is ever weakened, and the alphabet stays as it is.
    pub fn fold(&mut self, scored: &Vec<(char, LetterVerdict)>)
        requires
            covers_scored(old(self)@, scored@),
        ensures
            final(self)@ == folded(old(self)@, scored@),
            final(self)@.dom() == old(self)@.dom(),
            forall|c: char|
                old(self)@.contains_key(c) ==> (#[trigger] final(self)@[c]).strength() >= old(
                    self,
                )@[c].strength(),
    {
        let ghost before = self@;
        let mut i: usize = 0;
        while i < scored.len()
            invariant
                i <= scored.len(),
                covers_scored(before, scored@),
                self@ =~= Map::new(
                    |c: char| before.contains_key(c),
                    |c: char| before[c].max(strongest_before(scored@, c, i as int)),
                ),
            decreases scored.len() - i,
        {
            let c = scored[i].0;
            let verdict = scored[i].1;
            let key = key_of(c);
            assert(before.contains_key(scored@[i as int].0));
            match self.states.get(&key) {
                Some(state) => {
                    let merged = state.stronger(verdict);
                    proof {
                        assert(self@[c] == *state);
                        lemma_store(self.states@, c, merged);
                        crate::verdict::lemma_max_associative(
                            before[c],
                            strongest_before(scored@, c, i as int),
                            verdict,
                        );
                    }
                    self.states.insert(key, merged);
                },
                None => {},
            }
            i += 1;
        }
        assert(self@ =~= folded(before, scored@));
        assert(self@.dom() =~= before.dom());
    }

    /// Folds a scored guess in if the alphabet holds all its letters, and
    /// says whether it did. Otherwise the keyboard is left unchanged.
    pub fn try_fold(&mut self, scored: &Vec<(char, LetterVerdict)>) -> (done: bool)
        ensures
            done == covers_scored(old(self)@, scored@),
            done ==> final(self)@ == folded(old(self)@, scored@),
            !done ==> final(self)@ == old(self)@,
    {
        if self.covers_guess(scored) {
            self.fold(scored);
            true
        } else {
            false
        }
    }
}

} // verus!
