//! The classification of a letter, ordered by how much it reveals.

use vstd::prelude::*;

verus! {

/// What is known about a letter, either at one position of a guess or on the
/// keyboard as a whole.
///
/// The variants are listed from weakest to strongest. `Unused` only ever
/// appears on the keyboard: a letter of a scored guess is `Absent`, `Present`
/// or `Correct`.
#[derive(Clone, Copy, Debug, PartialEq, Eq, Structural, Hash)]
pub enum LetterVerdict {
    /// The letter has not been part of any guess yet.
    Unused,
    /// The letter adds nothing to the solution beyond what is already claimed.
    Absent,
    /// The letter belongs to the secret, but not at this position.
    Present,
    /// The letter stands in the secret at exactly this position.
    Correct,
}

impl LetterVerdict {
    /// The position of a verdict in the order `Unused < Absent < Present < Correct`.
    pub open spec fn strength(self) -> nat {
        match self {
            LetterVerdict::Unused => 0,
            LetterVerdict::Absent => 1,
            LetterVerdict::Present => 2,
            LetterVerdict::Correct => 3,
        }
    }

    /// The stronger of two verdicts.
    pub open spec fn max(self, other: LetterVerdict) -> LetterVerdict {
        if other.strength() > self.strength() {
            other
        } else {
            self
        }
    }

    /// Whether the verdict claims one occurrence of the letter in the secret.
    pub open spec fn is_claim(self) -> bool {
        self == LetterVerdict::Correct || self == LetterVerdict::Present
    }

    /// The strength of the verdict as a number.
    pub fn rank(self) -> (r: u8)
        ensures
            r == self.strength(),
    {
        match self {
            LetterVerdict::Unused => 0,
            LetterVerdict::Absent => 1,
            LetterVerdict::Present => 2,
            LetterVerdict::Correct => 3,
        }
    }

    /// Returns the stronger of `self` and `other`.
    pub fn stronger(self, other: LetterVerdict) -> (r: LetterVerdict)
        ensures
            r == self.max(other),
    {
        if other.rank() > self.rank() {
            other
        } else {
            self
        }
    }

    /// Whether `self` is at least as strong as `other`.
    pub fn at_least(self, other: LetterVerdict) -> (r: bool)
        ensures
            r == (self.strength() >= other.strength()),
    {
        self.rank() >= other.rank()
    }
}

/// Two verdicts of equal strength are the same: the order is total, with no ties.
pub proof fn lemma_strength_injective(a: LetterVerdict, b: LetterVerdict)
    ensures
        a.strength() == b.strength() <==> a == b,
{
}

/// `max` is the least upper bound in the strength order.
pub proof fn lemma_max_is_least_upper_bound(a: LetterVerdict, b: LetterVerdict)
    ensures
        a.max(b).strength() >= a.strength(),
        a.max(b).strength() >= b.strength(),
        a.max(b) == a || a.max(b) == b,
        a.max(b) == b.max(a),
{
}

/// Taking the stronger of three verdicts does not depend on the grouping.
pub proof fn lemma_max_associative(a: LetterVerdict, b: LetterVerdict, c: LetterVerdict)
    ensures
        a.max(b).max(c) == a.max(b.max(c)),
{
}

} // verus!
