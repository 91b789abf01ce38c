//! The strict counterpart of [`crate::iter::IMExIter`]: a merge that
//! reports a [`MergeError`] when the pattern references a source position
//! the source list does not have, instead of skipping it.

use vstd::prelude::*;

use crate::eval::{
    denote_expr, lemma_fresh_expr, step_matches, step_tail, wf_expr, ExprEval, MergeError,
};
use crate::expression::IMEx;
use crate::parser::{parse_mx, ParseErrV, SyntaxError};
use crate::semantics::{eval_imex, EvalOut};
use crate::sources::{seqs_of, Sources};

verus! {

/// A lazy merge of several sources under an IMEx. Unlike
/// [`crate::iter::IMExIter`], a `Single` atom whose index has no source is
/// a fatal [`MergeError`], handed out in place of an item.
pub struct PasteIter<T> {
    sources: Sources<T>,
    eval: ExprEval,
}

impl<T> PasteIter<T> {
    /// Every merge state this type can reach.
    pub closed spec fn inv(self) -> bool {
        wf_expr(self.eval)
    }

    /// What this merge will still emit: its items, the sources afterwards,
    /// and the out-of-range error it will end in, if any.
    pub closed spec fn remaining(self) -> EvalOut<T> {
        denote_expr(self.eval, self.sources@, true)
    }

    /// Builds a strict merge of `iters` controlled by the pattern: exactly
    /// the merge that [`eval_imex`] prescribes under the strict policy, or
    /// the pattern's syntax error.
    pub fn from(iters: Vec<Vec<T>>, pastex: &str) -> (r: Result<PasteIter<T>, SyntaxError>)
        ensures
            match r {
                Ok(it) => parse_mx(pastex@) matches Ok(ev) && it.inv() && it.remaining()
                    == eval_imex(ev, seqs_of(iters), true),
                Err(er) => parse_mx(pastex@) == Err::<crate::expression::IMExV, ParseErrV>(
                    ParseErrV { kind: er.kind, pos: er.pos as int },
                ),
            },
    {
        let parsed = IMEx::from(pastex);
        match parsed {
            Ok(e) => {
                let ghost ev = e@;
                let sources = Sources::new(iters);
                let eval = ExprEval::new(e);
                proof {
                    lemma_fresh_expr(eval, ev, sources@, true);
                }
                Ok(PasteIter { sources, eval })
            },
            Err(er) => Err(er),
        }
    }

    /// Builds a strict merge of `iters` controlled by an already-parsed
    /// expression.
    pub fn from_imex(iters: Vec<Vec<T>>, imex: IMEx) -> (r: PasteIter<T>)
        ensures
            r.inv(),
            r.remaining() == eval_imex(imex@, seqs_of(iters), true),
    {
        let ghost ev = imex@;
        let sources = Sources::new(iters);
        let eval = ExprEval::new(imex);
        proof {
            lemma_fresh_expr(eval, ev, sources@, true);
        }
        PasteIter { sources, eval }
    }

    /// The next merged item, the merge's fatal error, or `None` once the
    /// merge is finished: one step of [`PasteIter::remaining`].
    pub fn next(&mut self) -> (r: Option<Result<T, MergeError>>)
        requires
            old(self).inv(),
        ensures
            final(self).inv(),
            step_matches(old(self).remaining(), r),
            final(self).remaining() == step_tail(old(self).remaining()),
    {
        self.eval.iterate(&mut self.sources, true)
    }

    /// All the items the merge still holds, or its error: the error throws
    /// the items emitted before it away, as a failed merge has no useful
    /// prefix.
    pub fn collect_remaining(&mut self) -> (r: Result<Vec<T>, MergeError>)
        requires
            old(self).inv(),
        ensures
            final(self).inv(),
            match r {
                Ok(out) => old(self).remaining().err is None && out@ == old(
                    self,
                ).remaining().out,
                Err(er) => old(self).remaining().err matches Some(i) && er
                    == MergeError::IndexOutOfRange(i as usize),
            },
    {
        let mut out: Vec<T> = Vec::new();
        let ghost d = self.remaining();
        proof {
            assert(out@ + self.remaining().out =~= d.out);
        }
        loop
            invariant
                self.inv(),
                d == old(self).remaining(),
                out@ + self.remaining().out == d.out,
                self.remaining().err == d.err,
            decreases self.remaining().out.len(),
        {
            let ghost before = self.remaining();
            match self.next() {
                Some(x) => {
                    match x {
                        Ok(t) => {
                            out.push(t);
                            proof {
                                assert(before.out.len() > 0);
                                assert(out@ + self.remaining().out =~= d.out);
                            }
                        },
                        Err(er) => {
                            return Err(er);
                        },
                    }
                },
                None => {
                    proof {
                        assert(out@ =~= d.out);
                    }
                    return Ok(out);
                },
            }
        }
    }
}

} // verus!
