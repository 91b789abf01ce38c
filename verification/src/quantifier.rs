//! Repeat-count control for one atom of an IMEx: either a finite countdown
//! or an unbounded budget.

use vstd::prelude::*;

verus! {

/// How often the value of an atom may be repeated: `Finite(n)` allows `n`
/// further repetitions and counts down; `Infinite` never runs out.
///
/// `Finite(0)` means "no repetitions left"; a freshly parsed `{0}` starts
/// there and is exhausted at once.
#[derive(PartialEq, Eq, Structural, Debug, Clone, Copy)]
pub enum Quantifier {
    Infinite,
    Finite(usize),
}

impl Quantifier {
    /// Whether a further repetition is available without mutation.
    pub open spec fn spec_available(self) -> bool {
        match self {
            Quantifier::Infinite => true,
            Quantifier::Finite(n) => n > 0,
        }
    }

    /// The quantifier as it stands after one repetition has been taken.
    pub open spec fn spec_decrement(self) -> Quantifier {
        match self {
            Quantifier::Infinite => Quantifier::Infinite,
            Quantifier::Finite(n) => Quantifier::Finite((n - 1) as usize),
        }
    }

    /// Takes one repetition if any is available: `Finite(n > 0)` counts down
    /// by one and yields `Some(())`, `Finite(0)` yields `None`, and
    /// `Infinite` always yields `Some(())` without changing.
    pub fn next(&mut self) -> (r: Option<()>)
        ensures
            r is Some <==> old(self).spec_available(),
            old(self).spec_available() ==> *final(self) == old(self).spec_decrement(),
            !old(self).spec_available() ==> *final(self) == *old(self),
    {
        match *self {
            Quantifier::Finite(0) => None,
            Quantifier::Finite(n) => {
                *self = Quantifier::Finite(n - 1);
                Some(())
            },
            _ => Some(()),
        }
    }
}

} // verus!
