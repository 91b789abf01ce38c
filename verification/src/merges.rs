//! Convenience entry points for merging: build an [`IMExIter`] straight
//! from the sequences to merge, with a custom pattern or with the default
//! rotating one.
//!
//! The default pattern for `n` sources is `(` the digits `0` to `n - 1` `)*`:
//! rotate once through every source, repeated until all are exhausted. For
//! two sources that is `(01)*`, alternation. [`rotate_imex`] builds that
//! pattern's parse tree directly.

use vstd::prelude::*;

use crate::expression::{
    atoms_of, lemma_atoms_of, IMEx, IMExV, IMExVal, IMExValV, QuantifiedIMExVal,
    QuantifiedIMExValV,
};
use crate::iter::IMExIter;
use crate::parser::{parse_mx, ParseErrV, SyntaxError};
use crate::quantifier::Quantifier;
use crate::printer::{digits_imex, lemma_digits_atoms_index, lemma_parse_render, render_imex};
use crate::semantics::eval_imex;
use crate::sources::{seqs_of, views_of};

verus! {

/// The parse tree of the default rotating pattern over `n` sources: one
/// unbounded group holding `Single(0)` to `Single(n - 1)`, each once.
pub open spec fn rotate_view(n: nat) -> IMExV {
    IMExV {
        atoms: seq![
            QuantifiedIMExValV {
                val: IMExValV::Group(
                    IMExV {
                        atoms: Seq::new(
                            n,
                            |i: int|
                                QuantifiedIMExValV {
                                    val: IMExValV::Single(i as nat),
                                    quantifier: Quantifier::Finite(1),
                                },
                        ),
                    },
                ),
                quantifier: Quantifier::Infinite,
            },
        ],
    }
}

/// Builds the default rotating pattern over `n` sources, `(01…)*`. The
/// pattern language refers to sources by single digits, so at most ten
/// sources can take part.
pub fn rotate_imex(n: usize) -> (r: IMEx)
    requires
        n <= 10,
    ensures
        r@ == rotate_view(n as nat),
{
    let mut singles: Vec<QuantifiedIMExVal> = Vec::new();
    let mut i: usize = 0;
    while i < n
        invariant
            i <= n,
            singles@.len() == i,
            forall|j: int| 0 <= j < i ==> singles@[j]@ == (QuantifiedIMExValV {
                val: IMExValV::Single(j as nat),
                quantifier: Quantifier::Finite(1),
            }),
        decreases n - i,
    {
        singles.push(
            QuantifiedIMExVal { val: IMExVal::Single(i), quantifier: Quantifier::Finite(1) },
        );
        i = i + 1;
    }
    let group = IMEx(singles);
    proof {
        lemma_atoms_of(group.0@);
        assert(group@.atoms =~= rotate_view(n as nat).atoms[0].val->Group_0.atoms);
    }
    let mut atoms: Vec<QuantifiedIMExVal> = Vec::new();
    atoms.push(
        QuantifiedIMExVal { val: IMExVal::Group(group), quantifier: Quantifier::Infinite },
    );
    let r = IMEx(atoms);
    proof {
        lemma_atoms_of(r.0@);
        assert(r@.atoms =~= rotate_view(n as nat).atoms);
    }
    r
}

/// The default rotating pattern is an ordinary MX string: its canonical
/// text parses back to exactly the rotating parse tree, so nothing about
/// it is special-cased.
pub proof fn lemma_rotate_is_ordinary_pattern(n: nat)
    requires
        n <= 10,
    ensures
        parse_mx(render_imex(rotate_view(n))) == Ok::<IMExV, ParseErrV>(rotate_view(n)),
{
    let inner = rotate_view(n).atoms[0].val->Group_0.atoms;
    lemma_digits_atoms_index(inner);
    lemma_digits_atoms_index(rotate_view(n).atoms);
    assert(digits_imex(rotate_view(n)));
    lemma_parse_render(rotate_view(n));
}

/// Merging a sequence with others into one [`IMExIter`].
pub trait IMExMerges<T>: View<V = Seq<T>> + Sized {
    /// Merges `self` and `iters` under the pattern `imex`, with `self` as
    /// source `0`; `iters` is drained. Fails exactly on pattern text that
    /// does not parse.
    fn imex_merge_all(self, iters: &mut Vec<Vec<T>>, imex: &str) -> (r: Result<
        IMExIter<T>,
        SyntaxError,
    >)
        ensures
            final(iters)@.len() == 0,
            match r {
                Ok(it) => parse_mx(imex@) matches Ok(ev) && it.inv() && it.remaining()
                    == eval_imex(ev, seq![self@] + views_of(old(iters)@), false),
                Err(er) => parse_mx(imex@) == Err::<IMExV, ParseErrV>(
                    ParseErrV { kind: er.kind, pos: er.pos as int },
                ),
            },
    ;

    /// Merges `self` and `iters` by rotation: one item from each source in
    /// turn until all are exhausted. The single-digit pattern language caps
    /// the sources at ten.
    fn rot_merge_all(self, iters: &mut Vec<Vec<T>>) -> (r: IMExIter<T>)
        requires
            old(iters)@.len() <= 9,
        ensures
            final(iters)@.len() == 0,
            r.inv(),
            r.remaining() == eval_imex(
                rotate_view(old(iters)@.len() + 1),
                seq![self@] + views_of(old(iters)@),
                false,
            ),
    ;

    /// Merges two sequences under the pattern `imex`, `self` as source `0`
    /// and `other` as source `1`.
    fn imex_merge(self, other: Vec<T>, imex: &str) -> (r: Result<IMExIter<T>, SyntaxError>)
        ensures
            match r {
                Ok(it) => parse_mx(imex@) matches Ok(ev) && it.inv() && it.remaining()
                    == eval_imex(ev, seq![self@, other@], false),
                Err(er) => parse_mx(imex@) == Err::<IMExV, ParseErrV>(
                    ParseErrV { kind: er.kind, pos: er.pos as int },
                ),
            },
    ;

    /// Merges two sequences by alternation, one item from each in turn
    /// until both are exhausted.
    fn alt_merge(self, other: Vec<T>) -> (r: IMExIter<T>)
        ensures
            r.inv(),
            r.remaining() == eval_imex(rotate_view(2), seq![self@, other@], false),
    ;
}

impl<T> IMExMerges<T> for Vec<T> {
    fn imex_merge_all(self, iters: &mut Vec<Vec<T>>, imex: &str) -> (r: Result<
        IMExIter<T>,
        SyntaxError,
    >) {
        let ghost rest = iters@;
        let mut total: Vec<Vec<T>> = Vec::new();
        let ghost me = self@;
        total.push(self);
        total.append(iters);
        proof {
            assert(seqs_of(total) =~= seq![me] + views_of(rest));
        }
        IMExIter::new(total, imex)
    }

    fn rot_merge_all(self, iters: &mut Vec<Vec<T>>) -> (r: IMExIter<T>) {
        let ghost rest = iters@;
        let n = iters.len() + 1;
        let pattern = rotate_imex(n);
        let mut total: Vec<Vec<T>> = Vec::new();
        let ghost me = self@;
        total.push(self);
        total.append(iters);
        proof {
            assert(seqs_of(total) =~= seq![me] + views_of(rest));
        }
        IMExIter::from_imex(total, pattern)
    }

    fn imex_merge(self, other: Vec<T>, imex: &str) -> (r: Result<IMExIter<T>, SyntaxError>) {
        let mut total: Vec<Vec<T>> = Vec::new();
        let ghost me = self@;
        let ghost ot = other@;
        total.push(self);
        total.push(other);
        proof {
            assert(seqs_of(total) =~= seq![me, ot]);
        }
        IMExIter::new(total, imex)
    }

    fn alt_merge(self, other: Vec<T>) -> (r: IMExIter<T>) {
        let pattern = rotate_imex(2);
        let mut total: Vec<Vec<T>> = Vec::new();
        let ghost me = self@;
        let ghost ot = other@;
        total.push(self);
        total.push(other);
        proof {
            assert(seqs_of(total) =~= seq![me, ot]);
        }
        IMExIter::from_imex(total, pattern)
    }
}

} // verus!
