//! Convenience entry points for the strict merge: build a [`PasteIter`]
//! straight from the sequences to merge, with a custom pattern or with the
//! default rotating one.

use vstd::prelude::*;

use crate::expression::IMExV;
use crate::merges::{rotate_imex, rotate_view};
use crate::parser::{parse_mx, ParseErrV, SyntaxError};
use crate::paste_iter::PasteIter;
use crate::semantics::eval_imex;
use crate::sources::{seqs_of, views_of};

verus! {

/// Merging a sequence with others into a strict [`PasteIter`].
pub trait Pastes<T>: View<V = Seq<T>> + Sized {
    /// Merges `self` and `iters` under the pattern `pastex`, with `self`
    /// as source `0`; `iters` is drained. Fails exactly on pattern text
    /// that does not parse.
    fn pastex(self, iters: &mut Vec<Vec<T>>, pastex: &str) -> (r: Result<
        PasteIter<T>,
        SyntaxError,
    >)
        ensures
            final(iters)@.len() == 0,
            match r {
                Ok(it) => parse_mx(pastex@) matches Ok(ev) && it.inv() && it.remaining()
                    == eval_imex(ev, seq![self@] + views_of(old(iters)@), true),
                Err(er) => parse_mx(pastex@) == Err::<IMExV, ParseErrV>(
                    ParseErrV { kind: er.kind, pos: er.pos as int },
                ),
            },
    ;

    /// Merges `self` and `iters` by rotation: one item from each source in
    /// turn until all are exhausted. The single-digit pattern language caps
    /// the sources at ten.
    fn paste(self, iters: &mut Vec<Vec<T>>) -> (r: PasteIter<T>)
        requires
            old(iters)@.len() <= 9,
        ensures
            final(iters)@.len() == 0,
            r.inv(),
            r.remaining() == eval_imex(
                rotate_view(old(iters)@.len() + 1),
                seq![self@] + views_of(old(iters)@),
                true,
            ),
    ;

    /// Merges two sequences under the pattern `pastex`, `self` as source
    /// `0` and `other` as source `1`.
    fn pastex_both(self, other: Vec<T>, pastex: &str) -> (r: Result<PasteIter<T>, SyntaxError>)
        ensures
            match r {
                Ok(it) => parse_mx(pastex@) matches Ok(ev) && it.inv() && it.remaining()
                    == eval_imex(ev, seq![self@, other@], true),
                Err(er) => parse_mx(pastex@) == Err::<IMExV, ParseErrV>(
                    ParseErrV { kind: er.kind, pos: er.pos as int },
                ),
            },
    ;

    /// Merges two sequences by alternation, one item from each in turn
    /// until both are exhausted.
    fn paste_both(self, other: Vec<T>) -> (r: PasteIter<T>)
        ensures
            r.inv(),
            r.remaining() == eval_imex(rotate_view(2), seq![self@, other@], true),
    ;
}

impl<T> Pastes<T> for Vec<T> {
    fn pastex(self, iters: &mut Vec<Vec<T>>, pastex: &str) -> (r: Result<
        PasteIter<T>,
        SyntaxError,
    >) {
        let ghost rest = iters@;
        let mut total: Vec<Vec<T>> = Vec::new();
        let ghost me = self@;
        total.push(self);
        total.append(iters);
        proof {
            assert(seqs_of(total) =~= seq![me] + views_of(rest));
        }
        PasteIter::from(total, pastex)
    }

    fn paste(self, iters: &mut Vec<Vec<T>>) -> (r: PasteIter<T>) {
        let ghost rest = iters@;
        let n = iters.len() + 1;
        let pattern = rotate_imex(n);
        let mut total: Vec<Vec<T>> = Vec::new();
        let ghost me = self@;
        total.push(self);
        total.append(iters);
        proof {
            assert(seqs_of(total) =~= seq![me] + views_of(rest));
        }
        PasteIter::from_imex(total, pattern)
    }

    fn pastex_both(self, other: Vec<T>, pastex: &str) -> (r: Result<PasteIter<T>, SyntaxError>) {
        let mut total: Vec<Vec<T>> = Vec::new();
        let ghost me = self@;
        let ghost ot = other@;
        total.push(self);
        total.push(other);
        proof {
            assert(seqs_of(total) =~= seq![me, ot]);
        }
        PasteIter::from(total, pastex)
    }

    fn paste_both(self, other: Vec<T>) -> (r: PasteIter<T>) {
        let pattern = rotate_imex(2);
        let mut total: Vec<Vec<T>> = Vec::new();
        let ghost me = self@;
        let ghost ot = other@;
        total.push(self);
        total.push(other);
        proof {
            assert(seqs_of(total) =~= seq![me, ot]);
        }
        PasteIter::from_imex(total, pattern)
    }
}

} // verus!
