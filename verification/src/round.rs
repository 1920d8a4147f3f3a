//! One round of the game: a secret, a limit on the number of guesses, the
//! keyboard and the history of scored guesses.
//!
//! A round awaits guesses until one of them is the secret, which wins it, or
//! until the limit is reached without a win, which loses it. Scoring a guess
//! and folding it into the keyboard happen within one call, so a round is
//! only ever observed awaiting a guess, won or lost.

use vstd::prelude::*;
use crate::evaluate::{
    all_correct, evaluate, evaluation, guess_of, is_all_correct, lemma_all_correct_iff_equal,
    lemma_guess_of_evaluation,
};
use crate::keyboard::{
    covers, folded, fresh, lemma_fold_monotone, lemma_strongest_in_prefix, strongest_in,
    KeyboardState,
};
use crate::verdict::LetterVerdict;

verus! {

/// Where a round stands.
#[derive(Clone, Copy, Debug, PartialEq, Eq, Structural)]
pub enum RoundStatus {
    /// The round goes on and takes another guess.
    AwaitingGuess,
    /// The latest guess was the secret. The round is over.
    RoundWon,
    /// The limit was reached without a win. The round is over.
    RoundLost,
}

/// The status of a round that has counted `guesses` unsuccessful guesses
/// and whose latest guess was the secret or not, as `won` says.
pub open spec fn status_of(won: bool, guesses: nat, limit: nat) -> RoundStatus {
    if won {
        RoundStatus::RoundWon
    } else if guesses >= limit {
        RoundStatus::RoundLost
    } else {
        RoundStatus::AwaitingGuess
    }
}

/// The mathematical state of a round.
pub ghost struct RoundView {
    /// The word to be found.
    pub secret: Seq<char>,
    /// The strongest verdict of each letter so far.
    pub keyboard: Map<char, LetterVerdict>,
    /// The scored guesses, oldest first.
    pub history: Seq<Seq<(char, LetterVerdict)>>,
    /// How many guesses were counted against the limit. The winning guess is
    /// not counted.
    pub guesses: nat,
    /// How many unsuccessful guesses end the round.
    pub limit: nat,
    /// Where the round stands.
    pub status: RoundStatus,
}

impl RoundView {
    /// The state of a round before its first guess.
    pub open spec fn start(secret: Seq<char>, alphabet: Seq<char>, limit: nat) -> RoundView {
        RoundView {
            secret,
            keyboard: fresh(alphabet),
            history: Seq::empty(),
            guesses: 0,
            limit,
            status: status_of(false, 0, limit),
        }
    }

    /// Whether the round takes `guess`: it awaits a guess, the guess has the
    /// secret's length, and the keyboard knows all its letters.
    pub open spec fn takes(self, guess: Seq<char>) -> bool {
        &&& self.status == RoundStatus::AwaitingGuess
        &&& guess.len() == self.secret.len()
        &&& covers(self.keyboard, guess)
    }

    /// The state after `guess` has been scored, folded into the keyboard and
    /// appended to the history.
    pub open spec fn after_guess(self, guess: Seq<char>) -> RoundView {
        let scored = evaluation(self.secret, guess);
        let won = guess == self.secret;
        let guesses = if won {
            self.guesses
        } else {
            self.guesses + 1
        };
        RoundView {
            secret: self.secret,
            keyboard: folded(self.keyboard, scored),
            history: self.history.push(scored),
            guesses,
            limit: self.limit,
            status: status_of(won, guesses, self.limit),
        }
    }

    /// The state after the guesses of `run` up to the `n`-th, taken in order
    /// for as long as the round awaits a guess; guesses that follow the end
    /// of the round are ignored.
    pub open spec fn after_run(self, run: Seq<Seq<char>>, n: int) -> RoundView
        decreases n,
    {
        if n <= 0 {
            self
        } else {
            let before = self.after_run(run, n - 1);
            if before.status == RoundStatus::AwaitingGuess {
                before.after_guess(run[n - 1])
            } else {
                before
            }
        }
    }

    /// What holds of every round from its start on.
    ///
    /// Every entry of the history is the scoring of a guess against the
    /// secret, and the keyboard gives each letter the strongest verdict that
    /// the history holds for it. Only the latest entry can be all `Correct`,
    /// and it is so exactly in a won round. The count of guesses and the
    /// limit decide between awaiting and lost.
    pub open spec fn wf(self) -> bool {
        &&& forall|j: int|
            0 <= j < self.history.len() ==> (#[trigger] self.history[j]).len() == self.secret.len()
        &&& forall|j: int|
            0 <= j < self.history.len() ==> #[trigger] self.history[j] == evaluation(
                self.secret,
                guess_of(self.history[j]),
            )
        &&& forall|c: char| #[trigger]
            self.keyboard.contains_key(c) ==> self.keyboard[c] == strongest_in(
                self.history,
                c,
                self.history.len() as int,
            )
        &&& forall|j: int|
            0 <= j < self.history.len() - 1 ==> !all_correct(#[trigger] self.history[j])
        &&& self.guesses <= self.limit
        &&& match self.status {
            RoundStatus::AwaitingGuess => {
                &&& self.guesses == self.history.len()
                &&& self.guesses < self.limit
                &&& self.history.len() > 0 ==> !all_correct(self.history.last())
            },
            RoundStatus::RoundWon => {
                &&& self.history.len() == self.guesses + 1
                &&& self.guesses < self.limit
                &&& all_correct(self.history.last())
            },
            RoundStatus::RoundLost => {
                &&& self.guesses == self.history.len()
                &&& self.guesses == self.limit
                &&& self.history.len() > 0 ==> !all_correct(self.history.last())
            },
        }
    }
}

/// A new round is well formed.
pub proof fn lemma_start_wf(secret: Seq<char>, alphabet: Seq<char>, limit: nat)
    ensures
        RoundView::start(secret, alphabet, limit).wf(),
{
}

/// A guess that the round takes leaves it well formed.
pub proof fn lemma_after_guess_wf(round: RoundView, guess: Seq<char>)
    requires
        round.wf(),
        round.status == RoundStatus::AwaitingGuess,
        guess.len() == round.secret.len(),
    ensures
        round.after_guess(guess).wf(),
{
    lemma_all_correct_iff_equal(round.secret, guess);
    lemma_guess_of_evaluation(round.secret, guess);
    let next = round.after_guess(guess);
    let scored = evaluation(round.secret, guess);
    assert forall|j: int| 0 <= j < next.history.len() - 1 implies !all_correct(
        #[trigger] next.history[j],
    ) by {
        assert(next.history[j] == round.history[j]);
        if j == round.history.len() - 1 {
            assert(round.history[j] == round.history.last());
        }
    }
    assert(next.history.last() == scored);
    assert forall|j: int| 0 <= j < next.history.len() implies #[trigger] next.history[j]
        == evaluation(next.secret, guess_of(next.history[j])) by {
        if j < round.history.len() {
            assert(next.history[j] == round.history[j]);
        }
    }
    assert forall|c: char| #[trigger] next.keyboard.contains_key(c) implies next.keyboard[c]
        == strongest_in(next.history, c, next.history.len() as int) by {
        lemma_strongest_in_prefix(round.history, scored, c, round.history.len() as int);
    }
}

/// A round is won by the first guess that is the secret, whatever number of
/// guesses remains, and lost exactly when the count of guesses reaches the
/// limit while none of them was the secret.
pub proof fn lemma_guess_outcome(round: RoundView, guess: Seq<char>)
    requires
        round.wf(),
        round.status == RoundStatus::AwaitingGuess,
        guess.len() == round.secret.len(),
    ensures
        round.after_guess(guess).status == RoundStatus::RoundWon <==> all_correct(
            evaluation(round.secret, guess),
        ),
        round.after_guess(guess).status == RoundStatus::RoundLost <==> !all_correct(
            evaluation(round.secret, guess),
        ) && round.guesses + 1 == round.limit,
        round.after_guess(guess).status == RoundStatus::AwaitingGuess <==> !all_correct(
            evaluation(round.secret, guess),
        ) && round.guesses + 1 < round.limit,
{
    lemma_all_correct_iff_equal(round.secret, guess);
}

/// Every state that a run of guesses reaches from a well-formed round is
/// well formed, provided the guesses have the secret's length.
pub proof fn lemma_after_run_wf(round: RoundView, run: Seq<Seq<char>>, n: int)
    requires
        round.wf(),
        0 <= n <= run.len(),
        forall|j: int| 0 <= j < run.len() ==> (#[trigger] run[j]).len() == round.secret.len(),
    ensures
        round.after_run(run, n).wf(),
        round.after_run(run, n).secret == round.secret,
        round.after_run(run, n).limit == round.limit,
    decreases n,
{
    if n > 0 {
        lemma_after_run_wf(round, run, n - 1);
        let before = round.after_run(run, n - 1);
        if before.status == RoundStatus::AwaitingGuess {
            lemma_after_guess_wf(before, run[n - 1]);
        }
    }
}

/// The outcome of a run of guesses from the start of a round.
///
/// The round ends won exactly when one of the first `limit` guesses is the
/// secret. It ends lost exactly when at least `limit` guesses were made and
/// none of the first `limit` is the secret. Otherwise it still awaits a guess.
pub proof fn lemma_run_outcome(secret: Seq<char>, alphabet: Seq<char>, limit: nat, run: Seq<Seq<char>>)
    requires
        forall|j: int| 0 <= j < run.len() ==> (#[trigger] run[j]).len() == secret.len(),
    ensures
        ({
            let end = RoundView::start(secret, alphabet, limit).after_run(run, run.len() as int);
            let found = exists|j: int| 0 <= j < run.len() && j < limit && #[trigger] run[j] == secret;
            &&& end.status == RoundStatus::RoundWon <==> found
            &&& end.status == RoundStatus::RoundLost <==> !found && run.len() >= limit
            &&& end.status == RoundStatus::AwaitingGuess <==> !found && run.len() < limit
        }),
{
    lemma_run_prefix(secret, alphabet, limit, run, run.len() as int);
}

/// The state of a round after the first `n` guesses of a run.
proof fn lemma_run_prefix(
    secret: Seq<char>,
    alphabet: Seq<char>,
    limit: nat,
    run: Seq<Seq<char>>,
    n: int,
)
    requires
        0 <= n <= run.len(),
        forall|j: int| 0 <= j < run.len() ==> (#[trigger] run[j]).len() == secret.len(),
    ensures
        ({
            let end = RoundView::start(secret, alphabet, limit).after_run(run, n);
            let found = exists|j: int| 0 <= j < n && j < limit && #[trigger] run[j] == secret;
            &&& end.wf()
            &&& end.secret == secret
            &&& end.limit == limit
            &&& end.status == RoundStatus::RoundWon <==> found
            &&& end.status == RoundStatus::RoundLost <==> !found && n >= limit
            &&& end.status == RoundStatus::AwaitingGuess <==> !found && n < limit
            &&& end.status == RoundStatus::AwaitingGuess ==> end.guesses == n
        }),
    decreases n,
{
    let start = RoundView::start(secret, alphabet, limit);
    if n > 0 {
        lemma_run_prefix(secret, alphabet, limit, run, n - 1);
        let before = start.after_run(run, n - 1);
        let end = start.after_run(run, n);
        let found_before = exists|j: int| 0 <= j < n - 1 && j < limit && #[trigger] run[j] == secret;
        let found = exists|j: int| 0 <= j < n && j < limit && #[trigger] run[j] == secret;
        if found_before {
            let j = choose|j: int| 0 <= j < n - 1 && j < limit && #[trigger] run[j] == secret;
            assert(0 <= j < n && j < limit && run[j] == secret);
        }
        if found && !found_before {
            let j = choose|j: int| 0 <= j < n && j < limit && #[trigger] run[j] == secret;
            assert(j == n - 1);
        }
        if before.status == RoundStatus::AwaitingGuess {
            lemma_after_guess_wf(before, run[n - 1]);
            if run[n - 1] == secret {
                assert(0 <= n - 1 < n && n - 1 < limit && run[n - 1] == secret);
            }
        }
    }
}

/// Within a round no guess weakens what the keyboard says of a letter, and
/// the keys stay the same: after `j` guesses of a run every letter stands
/// at least as strong as after the first `i` of them.
pub proof fn lemma_keyboard_never_regresses(
    round: RoundView,
    run: Seq<Seq<char>>,
    i: int,
    j: int,
    c: char,
)
    requires
        0 <= i <= j,
    ensures
        round.after_run(run, i).keyboard.contains_key(c) == round.keyboard.contains_key(c),
        round.after_run(run, j).keyboard.contains_key(c) == round.keyboard.contains_key(c),
        round.keyboard.contains_key(c) ==> round.after_run(run, j).keyboard[c].strength()
            >= round.after_run(run, i).keyboard[c].strength(),
    decreases j,
{
    if j > 0 {
        if i < j {
            lemma_keyboard_never_regresses(round, run, i, j - 1, c);
            let before = round.after_run(run, j - 1);
            lemma_fold_monotone(before.keyboard, evaluation(before.secret, run[j - 1]), c);
        } else {
            lemma_keyboard_never_regresses(round, run, i - 1, j - 1, c);
        }
    }
}

/// One round of the game.
pub struct Round {
    secret: Vec<char>,
    keyboard: KeyboardState,
    history: Vec<Vec<(char, LetterVerdict)>>,
    guess_count: usize,
    max_guesses: usize,
    status: RoundStatus,
}

impl View for Round {
    type V = RoundView;

    closed spec fn view(&self) -> RoundView {
        RoundView {
            secret: self.secret@,
            keyboard: self.keyboard@,
            history: self.history@.map_values(|scored: Vec<(char, LetterVerdict)>| scored@),
            guesses: self.guess_count as nat,
            limit: self.max_guesses as nat,
            status: self.status,
        }
    }
}

impl Round {
    /// Starts a round on `secret`, with every letter of `alphabet` unused and
    /// room for `max_guesses` guesses. With no room at all the round is lost
    /// from the start.
    pub fn new(secret: Vec<char>, alphabet: &Vec<char>, max_guesses: usize) -> (round: Round)
        ensures
            round@ == RoundView::start(secret@, alphabet@, max_guesses as nat),
            round@.wf(),
    {
        let status = if max_guesses == 0 {
            RoundStatus::RoundLost
        } else {
            RoundStatus::AwaitingGuess
        };
        let round = Round {
            secret,
            keyboard: KeyboardState::new(alphabet),
            history: Vec::new(),
            guess_count: 0,
            max_guesses,
            status,
        };
        assert(round@.history =~= Seq::empty());
        round
    }

    /// The word to be found.
    pub fn secret(&self) -> (secret: &Vec<char>)
        ensures
            secret@ == self@.secret,
    {
        &self.secret
    }

    /// The keyboard as it stands.
    pub fn keyboard(&self) -> (keyboard: &KeyboardState)
        ensures
            keyboard@ == self@.keyboard,
    {
        &self.keyboard
    }

    /// The scored guesses, oldest first.
    pub fn history(&self) -> (history: &Vec<Vec<(char, LetterVerdict)>>)
        ensures
            history@.len() == self@.history.len(),
            forall|j: int| 0 <= j < history@.len() ==> (#[trigger] history@[j])@ == self@.history[j],
    {
        &self.history
    }

    /// How many guesses were counted against the limit.
    pub fn guesses_made(&self) -> (count: usize)
        ensures
            count == self@.guesses,
    {
        self.guess_count
    }

    /// How many unsuccessful guesses end the round.
    pub fn max_guesses(&self) -> (limit: usize)
        ensures
            limit == self@.limit,
    {
        self.max_guesses
    }

    /// Where the round stands.
    pub fn status(&self) -> (status: RoundStatus)
        ensures
            status == self@.status,
    {
        self.status
    }

    /// Whether the round is won or lost.
    pub fn is_over(&self) -> (over: bool)
        ensures
            over == (self@.status != RoundStatus::AwaitingGuess),
    {
        match self.status {
            RoundStatus::AwaitingGuess => false,
            _ => true,
        }
    }

    /// Whether the next guess is the last that the limit allows.
    pub fn is_last_guess(&self) -> (last: bool)
        ensures
            last == (self@.status == RoundStatus::AwaitingGuess && self@.guesses + 1
                == self@.limit),
    {
        match self.status {
            RoundStatus::AwaitingGuess => self.max_guesses > 0 && self.guess_count
                == self.max_guesses - 1,
            _ => false,
        }
    }

    /// Whether the round takes `guess`: it awaits a guess, the guess has the
    /// secret's length, and the keyboard knows all its letters.
    pub fn accepts(&self, guess: &Vec<char>) -> (ok: bool)
        ensures
            ok == self@.takes(guess@),
    {
        match self.status {
            RoundStatus::AwaitingGuess => guess.len() == self.secret.len()
                && self.keyboard.covers_word(guess),
            _ => false,
        }
    }

    /// Takes a guess: scores it against the secret, folds the result into
    /// the keyboard, appends it to the history and decides how the round
    /// goes on. Returns the new status.
    ///
    /// The round is won if the guess is the secret. Otherwise the guess is
    /// counted, and the round is lost once the count has reached the limit.
    pub fn submit(&mut self, guess: &Vec<char>) -> (status: RoundStatus)
        requires
            old(self)@.wf(),
            old(self)@.takes(guess@),
        ensures
            final(self)@ == old(self)@.after_guess(guess@),
            final(self)@.wf(),
            status == final(self)@.status,
            status == RoundStatus::RoundWon <==> guess@ == old(self)@.secret,
            status == RoundStatus::RoundLost <==> guess@ != old(self)@.secret && old(self)@.guesses
                + 1 == old(self)@.limit,
    {
        let ghost before = self@;
        let scored = evaluate(&self.secret, guess);
        proof {
            lemma_after_guess_wf(before, guess@);
            assert forall|i: int| 0 <= i < scored@.len() implies before.keyboard.contains_key(
                (#[trigger] scored@[i]).0,
            ) by {
                assert(scored@[i].0 == guess@[i]);
            }
        }
        self.keyboard.fold(&scored);
        let won = is_all_correct(&scored);
        self.history.push(scored);
        if won {
            self.status = RoundStatus::RoundWon;
        } else {
            self.guess_count = self.guess_count + 1;
            if self.guess_count == self.max_guesses {
                self.status = RoundStatus::RoundLost;
            }
        }
        assert(self@.history =~= before.history.push(evaluation(before.secret, guess@)));
        self.status
    }

    /// Takes a guess if the round accepts it, and returns the new status;
    /// otherwise leaves the round as it is and returns `None`.
    pub fn try_submit(&mut self, guess: &Vec<char>) -> (status: Option<RoundStatus>)
        requires
            old(self)@.wf(),
        ensures
            final(self)@.wf(),
            old(self)@.takes(guess@) ==> final(self)@ == old(self)@.after_guess(guess@) && status
                == Some(final(self)@.status),
            !old(self)@.takes(guess@) ==> final(self)@ == old(self)@ && status.is_none(),
    {
        if self.accepts(guess) {
            Some(self.submit(guess))
        } else {
            None
        }
    }
}

} // verus!
