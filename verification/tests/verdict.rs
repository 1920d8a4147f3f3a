use wordle::verdict::LetterVerdict;
use wordle::verdict::LetterVerdict::{Absent, Correct, Present, Unused};

#[test]
fn verdicts_are_ordered_by_strength() {
    assert_eq!(Unused.rank(), 0);
    assert_eq!(Absent.rank(), 1);
    assert_eq!(Present.rank(), 2);
    assert_eq!(Correct.rank(), 3);
}

#[test]
fn stronger_is_the_maximum() {
    let all = [Unused, Absent, Present, Correct];
    for a in all {
        for b in all {
            let expected: LetterVerdict = if b.rank() > a.rank() { b } else { a };
            assert_eq!(a.stronger(b), expected);
            assert_eq!(a.stronger(b), b.stronger(a));
            assert_eq!(a.at_least(b), a.rank() >= b.rank());
        }
    }
    assert_eq!(Present.stronger(Absent), Present);
    assert_eq!(Absent.stronger(Correct), Correct);
    assert_eq!(Unused.stronger(Unused), Unused);
}
