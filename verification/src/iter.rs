//! The public face of a merge: [`IMExIter`] pairs a parsed expression's
//! evaluator with the sources it consumes and hands out one item per call.
//!
//! `IMExIter` treats an out-of-range source reference like an exhausted
//! source and skips it; [`crate::paste_iter::PasteIter`] is its strict
//! counterpart that reports the error instead.

use vstd::prelude::*;

use crate::eval::{
    denote_expr, fresh_expr, lemma_fresh_expr, lemma_noerr_denote_expr, step_tail, wf_atom,
    wf_expr, wf_val, AtomEval, ExprEval, MergeError, ValEval,
};
use crate::expression::IMEx;
use crate::parser::{parse_mx, ParseErrV, SyntaxError};
use crate::semantics::{eval_imex, EvalOut};
use crate::sources::{seqs_of, Sources};

verus! {

/// A step of a merge evaluator: like the standard iterator's `next`, but
/// with the sources the merge pulls from handed in, together with the
/// out-of-range policy.
pub trait IMExIterator {
    /// The states in which a step may be taken.
    spec fn inv(&self) -> bool;

    /// The next merged item, the merge error, or `None` when nothing is
    /// left.
    fn iterate<T>(&mut self, sources: &mut Sources<T>, strict: bool) -> (r: Option<
        Result<T, MergeError>,
    >)
        requires
            old(self).inv(),
        ensures
            final(self).inv(),
    ;
}

impl IMExIterator for ValEval {
    open spec fn inv(&self) -> bool {
        wf_val(*self)
    }

    fn iterate<T>(&mut self, sources: &mut Sources<T>, strict: bool) -> (r: Option<
        Result<T, MergeError>,
    >) {
        self.iterate(sources, strict)
    }
}

impl IMExIterator for AtomEval {
    open spec fn inv(&self) -> bool {
        wf_atom(*self)
    }

    fn iterate<T>(&mut self, sources: &mut Sources<T>, strict: bool) -> (r: Option<
        Result<T, MergeError>,
    >) {
        self.iterate(sources, strict)
    }
}

impl IMExIterator for ExprEval {
    open spec fn inv(&self) -> bool {
        wf_expr(*self)
    }

    fn iterate<T>(&mut self, sources: &mut Sources<T>, strict: bool) -> (r: Option<
        Result<T, MergeError>,
    >) {
        self.iterate(sources, strict)
    }
}

/// Wraps a merge evaluator and counts how many items it has handed out
/// (saturating at the counter's width).
pub struct IMExIterCounter<X: IMExIterator> {
    imex_iter: X,
    counter: u32,
}

impl<X: IMExIterator> IMExIterCounter<X> {
    /// The count so far.
    pub closed spec fn spec_count(&self) -> u32 {
        self.counter
    }

    /// The wrapped evaluator.
    pub closed spec fn spec_inner(&self) -> X {
        self.imex_iter
    }

    /// Wraps an evaluator, with the count at zero.
    pub fn new(imex_iter: X) -> (r: IMExIterCounter<X>)
        ensures
            r.spec_count() == 0,
            r.spec_inner() == imex_iter,
    {
        IMExIterCounter { imex_iter, counter: 0 }
    }

    /// How many items the wrapped evaluator has handed out.
    pub fn count(&self) -> (c: u32)
        ensures
            c == self.spec_count(),
    {
        self.counter
    }
}

impl<X: IMExIterator> IMExIterator for IMExIterCounter<X> {
    open spec fn inv(&self) -> bool {
        self.spec_inner().inv()
    }

    fn iterate<T>(&mut self, sources: &mut Sources<T>, strict: bool) -> (r: Option<
        Result<T, MergeError>,
    >)
        ensures
            r matches Some(x) && x is Ok ==> final(self).spec_count() == (
            if old(self).spec_count() < u32::MAX {
                (old(self).spec_count() + 1) as u32
            } else {
                old(self).spec_count()
            }),
            !(r matches Some(x) && x is Ok) ==> final(self).spec_count() == old(
                self,
            ).spec_count(),
    {
        let r = self.imex_iter.iterate(sources, strict);
        match &r {
            Some(x) => {
                if x.is_ok() {
                    if self.counter < u32::MAX {
                        self.counter = self.counter + 1;
                    }
                }
            },
            None => {},
        }
        r
    }
}

/// A lazy merge of several sources under an IMEx, one item per call of
/// [`IMExIter::next`]. An out-of-range source reference is skipped as if
/// the source were exhausted.
pub struct IMExIter<T> {
    sources: Sources<T>,
    eval: ExprEval,
}

impl<T> IMExIter<T> {
    /// Every merge state this type can reach.
    pub closed spec fn inv(self) -> bool {
        wf_expr(self.eval)
    }

    /// What this merge will still emit, and the sources as they will stand.
    pub closed spec fn remaining(self) -> EvalOut<T> {
        denote_expr(self.eval, self.sources@, false)
    }

    /// Builds a merge of `iters` controlled by the pattern `imex`: exactly
    /// the merge that [`eval_imex`] prescribes for the parsed pattern, or
    /// the pattern's syntax error.
    pub fn new(iters: Vec<Vec<T>>, imex: &str) -> (r: Result<IMExIter<T>, SyntaxError>)
        ensures
            match r {
                Ok(it) => parse_mx(imex@) matches Ok(ev) && it.inv() && it.remaining()
                    == eval_imex(ev, seqs_of(iters), false),
                Err(er) => parse_mx(imex@) == Err::<crate::expression::IMExV, ParseErrV>(
                    ParseErrV { kind: er.kind, pos: er.pos as int },
                ),
            },
    {
        let parsed = IMEx::from(imex);
        match parsed {
            Ok(e) => {
                let ghost ev = e@;
                let sources = Sources::new(iters);
                let eval = ExprEval::new(e);
                proof {
                    lemma_fresh_expr(eval, ev, sources@, false);
                }
                Ok(IMExIter { sources, eval })
            },
            Err(er) => Err(er),
        }
    }

    /// Builds a merge of `iters` controlled by an already-parsed
    /// expression.
    pub fn from_imex(iters: Vec<Vec<T>>, imex: IMEx) -> (r: IMExIter<T>)
        ensures
            r.inv(),
            r.remaining() == eval_imex(imex@, seqs_of(iters), false),
    {
        let ghost ev = imex@;
        let sources = Sources::new(iters);
        let eval = ExprEval::new(imex);
        proof {
            lemma_fresh_expr(eval, ev, sources@, false);
        }
        IMExIter { sources, eval }
    }

    /// The next merged item, or `None` once the merge is finished: the
    /// first item of [`IMExIter::remaining`], which afterwards holds the
    /// tail.
    pub fn next(&mut self) -> (r: Option<T>)
        requires
            old(self).inv(),
        ensures
            final(self).inv(),
            r == (if old(self).remaining().out.len() > 0 {
                Some(old(self).remaining().out[0])
            } else {
                None::<T>
            }),
            final(self).remaining() == step_tail(old(self).remaining()),
    {
        proof {
            lemma_noerr_denote_expr(self.eval, self.sources@);
        }
        let r = self.eval.iterate(&mut self.sources, false);
        match r {
            Some(x) => {
                match x {
                    Ok(t) => Some(t),
                    Err(_) => unreached(),
                }
            },
            None => None,
        }
    }

    /// All the items the merge still holds, in order.
    pub fn collect_remaining(&mut self) -> (out: Vec<T>)
        requires
            old(self).inv(),
        ensures
            final(self).inv(),
            out@ == old(self).remaining().out,
            final(self).remaining().out.len() == 0,
    {
        let mut out: Vec<T> = Vec::new();
        let ghost d = self.remaining();
        proof {
            assert(out@ + self.remaining().out =~= d.out);
        }
        loop
            invariant
                self.inv(),
                out@ + self.remaining().out == d.out,
                self.remaining().err == d.err,
                self.remaining().rest == d.rest,
            ensures
                out@ == d.out,
                self.remaining().out.len() == 0,
            decreases self.remaining().out.len(),
        {
            let ghost before = self.remaining();
            match self.next() {
                Some(t) => {
                    out.push(t);
                    proof {
                        assert(before.out.len() > 0);
                        assert(out@ + self.remaining().out =~= d.out);
                    }
                },
                None => {
                    proof {
                        assert(out@ =~= d.out);
                    }
                    break;
                },
            }
        }
        out
    }
}

} // verus!
