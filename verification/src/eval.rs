//! The merge evaluator: a resumable state machine that produces one output
//! item per call, walking an [`IMEx`] against a [`Sources`].
//!
//! Each state is given a meaning by the `denote_*` functions: the whole
//! stream of items it will still emit, the sources as they will stand
//! afterwards, and the error, if one will be hit. The contract of every
//! `iterate` method is then uniform: one call peels the first item off the
//! state's denotation ([`step_matches`], [`step_tail`]) and leaves a state
//! that denotes the tail. A freshly built evaluator denotes exactly
//! [`eval_imex`] of its expression, so repeatedly calling `iterate` emits
//! precisely the merge that the semantics prescribes.

use vstd::prelude::*;

use crate::expression::{
    atoms_of, lemma_atoms_of, IMEx, IMExV, IMExVal, IMExValV, QuantifiedIMExVal,
    QuantifiedIMExValV,
};
use crate::quantifier::Quantifier;
use crate::semantics::{
    basic, eval_atom, eval_atoms, eval_done, eval_imex, eval_quant, eval_repeat, eval_val,
    lemma_basic_atoms, lemma_basic_quant, lemma_basic_val, lemma_repeat_stable, size_atoms,
    size_val, EvalOut,
};
use crate::sources::{total_len, Sources};

verus! {

/// The one runtime error of a merge: a `Single` atom referenced a source
/// position that the source list does not have.
#[derive(PartialEq, Eq, Structural, Debug, Clone, Copy)]
pub enum MergeError {
    IndexOutOfRange(usize),
}

/// Evaluation state of one repetition of an atom value.
pub enum ValEval {
    /// A `Single` repetition: one pull from source `index`, then done.
    Single { index: usize, done: bool },
    /// A `Group` repetition: one full pass over the inner expression.
    Group(Box<ExprEval>),
}

/// Evaluation state of one quantified atom: the value it repeats, the
/// repetitions still allowed, the repetition under way, and whether that
/// repetition has produced an item yet.
pub struct AtomEval {
    val: IMExVal,
    quantifier: Quantifier,
    current: Option<ValEval>,
    produced: bool,
}

/// Evaluation state of an expression: the atoms it walks, how many of them
/// are already done, and the active atom.
pub struct ExprEval {
    atoms: Vec<QuantifiedIMExVal>,
    cursor: usize,
    current: Option<Box<AtomEval>>,
}

impl ExprEval {
    /// The atoms not yet started.
    pub closed spec fn remaining(self) -> Seq<crate::expression::QuantifiedIMExValV> {
        atoms_of(self.atoms@).skip(self.cursor as int)
    }
}

pub closed spec fn wf_val(v: ValEval) -> bool
    decreases v,
{
    match v {
        ValEval::Single { .. } => true,
        ValEval::Group(e) => wf_expr(*e),
    }
}

pub closed spec fn wf_atom(a: AtomEval) -> bool
    decreases a,
{
    match a.current {
        None => true,
        Some(v) => wf_val(v),
    }
}

pub closed spec fn wf_expr(e: ExprEval) -> bool
    decreases e,
{
    &&& e.cursor <= e.atoms@.len()
    &&& match e.current {
        None => true,
        Some(a) => wf_atom(*a),
    }
}

/// Termination measures over evaluator states.
pub closed spec fn size_val_eval(v: ValEval) -> nat
    decreases v,
{
    match v {
        ValEval::Single { .. } => 2,
        ValEval::Group(e) => 1 + size_expr_eval(*e),
    }
}

pub closed spec fn size_atom_eval(a: AtomEval) -> nat
    decreases a,
{
    2 + 4 * size_val(a.val@) + (match a.current {
        None => 0,
        Some(v) => size_val_eval(v),
    })
}

pub closed spec fn size_expr_eval(e: ExprEval) -> nat
    decreases e,
{
    1 + 4 * size_atoms(e.remaining()) + (match e.current {
        None => 0,
        Some(a) => size_atom_eval(*a),
    })
}

/// What one repetition state will still contribute.
pub closed spec fn denote_val<T>(v: ValEval, ss: Seq<Seq<T>>, strict: bool) -> EvalOut<T>
    decreases size_val_eval(v), 5int, 0int,
{
    match v {
        ValEval::Single { index, done } => {
            if done {
                eval_done(ss)
            } else {
                eval_val(IMExValV::Single(index as nat), ss, strict)
            }
        },
        ValEval::Group(e) => denote_expr(*e, ss, strict),
    }
}

/// What one atom state will still contribute: the rest of the repetition
/// under way and, if that repetition turns out productive (or already was),
/// the repetitions the quantifier still allows.
pub closed spec fn denote_atom<T>(a: AtomEval, ss: Seq<Seq<T>>, strict: bool) -> EvalOut<T>
    decreases size_atom_eval(a), 5int, 0int,
{
    match a.current {
        None => eval_quant(a.val@, a.quantifier, ss, strict),
        Some(v) => {
            let oc = denote_val(v, ss, strict);
            if oc.err is Some {
                oc
            } else if !a.produced && oc.out.len() == 0 {
                oc
            } else {
                let o2 = eval_quant(a.val@, a.quantifier, oc.rest, strict);
                EvalOut { out: oc.out + o2.out, rest: o2.rest, err: o2.err }
            }
        },
    }
}

/// What one expression state will still contribute: the rest of the active
/// atom, then the atoms not yet started.
pub closed spec fn denote_expr<T>(e: ExprEval, ss: Seq<Seq<T>>, strict: bool) -> EvalOut<T>
    decreases size_expr_eval(e), 6int, 0int,
{
    let head = match e.current {
        None => eval_done(ss),
        Some(a) => denote_atom(*a, ss, strict),
    };
    if head.err is Some {
        head
    } else {
        let o2 = eval_atoms(e.remaining(), head.rest, strict);
        EvalOut { out: head.out + o2.out, rest: o2.rest, err: o2.err }
    }
}

/// Denotations have the same shape as evaluations: sources keep their
/// count, each item costs one source item, and an empty, error-free
/// denotation leaves the sources untouched.
pub proof fn lemma_basic_denote_val<T>(v: ValEval, ss: Seq<Seq<T>>, strict: bool)
    ensures
        basic(denote_val(v, ss, strict), ss),
    decreases size_val_eval(v), 5int, 0int,
{
    match v {
        ValEval::Single { index, done } => {
            if !done {
                lemma_basic_val(IMExValV::Single(index as nat), ss, strict);
            }
        },
        ValEval::Group(e) => lemma_basic_denote_expr(*e, ss, strict),
    }
}

pub proof fn lemma_basic_denote_atom<T>(a: AtomEval, ss: Seq<Seq<T>>, strict: bool)
    ensures
        basic(denote_atom(a, ss, strict), ss),
    decreases size_atom_eval(a), 5int, 0int,
{
    match a.current {
        None => lemma_basic_quant(a.val@, a.quantifier, ss, strict),
        Some(v) => {
            lemma_basic_denote_val(v, ss, strict);
            let oc = denote_val(v, ss, strict);
            if !(oc.err is Some) && !(!a.produced && oc.out.len() == 0) {
                lemma_basic_quant(a.val@, a.quantifier, oc.rest, strict);
            }
        },
    }
}

pub proof fn lemma_basic_denote_expr<T>(e: ExprEval, ss: Seq<Seq<T>>, strict: bool)
    ensures
        basic(denote_expr(e, ss, strict), ss),
    decreases size_expr_eval(e), 6int, 0int,
{
    match e.current {
        None => lemma_basic_atoms(e.remaining(), ss, strict),
        Some(a) => {
            lemma_basic_denote_atom(*a, ss, strict);
            let head = denote_atom(*a, ss, strict);
            if !(head.err is Some) {
                lemma_basic_atoms(e.remaining(), head.rest, strict);
            }
        },
    }
}

/// Without the strict policy a state cannot be about to err.
pub proof fn lemma_noerr_denote_val<T>(v: ValEval, ss: Seq<Seq<T>>)
    ensures
        denote_val(v, ss, false).err is None,
    decreases size_val_eval(v), 5int, 0int,
{
    match v {
        ValEval::Single { index, done } => {
            if !done {
                crate::semantics::lemma_noerr_val(IMExValV::Single(index as nat), ss);
            }
        },
        ValEval::Group(e) => lemma_noerr_denote_expr(*e, ss),
    }
}

pub proof fn lemma_noerr_denote_atom<T>(a: AtomEval, ss: Seq<Seq<T>>)
    ensures
        denote_atom(a, ss, false).err is None,
    decreases size_atom_eval(a), 5int, 0int,
{
    match a.current {
        None => crate::semantics::lemma_noerr_quant(a.val@, a.quantifier, ss),
        Some(v) => {
            lemma_noerr_denote_val(v, ss);
            let oc = denote_val(v, ss, false);
            if !(oc.err is Some) && !(!a.produced && oc.out.len() == 0) {
                crate::semantics::lemma_noerr_quant(a.val@, a.quantifier, oc.rest);
            }
        },
    }
}

pub proof fn lemma_noerr_denote_expr<T>(e: ExprEval, ss: Seq<Seq<T>>)
    ensures
        denote_expr(e, ss, false).err is None,
    decreases size_expr_eval(e), 6int, 0int,
{
    match e.current {
        None => crate::semantics::lemma_noerr_atoms(e.remaining(), ss),
        Some(a) => {
            lemma_noerr_denote_atom(*a, ss);
            let head = denote_atom(*a, ss, false);
            if !(head.err is Some) {
                crate::semantics::lemma_noerr_atoms(e.remaining(), head.rest);
            }
        },
    }
}

/// What a call to `iterate` must return, given the state's denotation: the
/// first item of the stream, the error once no items are left before it, or
/// exhaustion.
pub open spec fn step_matches<T>(d: EvalOut<T>, r: Option<Result<T, MergeError>>) -> bool {
    if d.out.len() > 0 {
        r == Some(Ok::<T, MergeError>(d.out[0]))
    } else {
        match d.err {
            Some(i) => r == Some(Err::<T, MergeError>(MergeError::IndexOutOfRange(i as usize))),
            None => r == None::<Result<T, MergeError>>,
        }
    }
}

/// The denotation left after one call: the tail of the stream if an item
/// was emitted, the unchanged denotation otherwise (an exhausted or erring
/// state stays what it is).
pub open spec fn step_tail<T>(d: EvalOut<T>) -> EvalOut<T> {
    if d.out.len() > 0 {
        EvalOut { out: d.out.drop_first(), rest: d.rest, err: d.err }
    } else {
        d
    }
}

/// A repetition state that has not consumed anything yet, for the given
/// atom value.
pub closed spec fn fresh_val(r: ValEval, v: IMExValV) -> bool
    decreases r,
{
    match r {
        ValEval::Single { index, done } => !done && v == IMExValV::Single(index as nat),
        ValEval::Group(e) => match v {
            IMExValV::Group(ev) => fresh_expr(*e, ev),
            _ => false,
        },
    }
}

/// An expression evaluator standing before its first atom.
pub closed spec fn fresh_expr(e: ExprEval, ev: IMExV) -> bool {
    &&& e.cursor == 0
    &&& e.current is None
    &&& atoms_of(e.atoms@) == ev.atoms
}

/// An atom evaluator standing before its first repetition.
pub closed spec fn fresh_atom(a: AtomEval, av: QuantifiedIMExValV) -> bool {
    &&& a.val@ == av.val
    &&& a.quantifier == av.quantifier
    &&& a.current is None
    &&& a.produced == false
}

/// A fresh expression evaluator denotes exactly its expression.
pub proof fn lemma_fresh_expr<T>(e: ExprEval, ev: IMExV, ss: Seq<Seq<T>>, strict: bool)
    requires
        fresh_expr(e, ev),
    ensures
        wf_expr(e),
        denote_expr(e, ss, strict) == eval_imex(ev, ss, strict),
{
    lemma_atoms_of(e.atoms@);
    assert(e.remaining() =~= ev.atoms);
    let o2 = eval_atoms(ev.atoms, ss, strict);
    assert(denote_expr(e, ss, strict) =~~= o2);
}

/// A fresh repetition state denotes exactly one repetition of its value.
pub proof fn lemma_fresh_val<T>(r: ValEval, v: IMExValV, ss: Seq<Seq<T>>, strict: bool)
    requires
        fresh_val(r, v),
    ensures
        wf_val(r),
        denote_val(r, ss, strict) == eval_val(v, ss, strict),
{
    match r {
        ValEval::Single { .. } => {},
        ValEval::Group(e) => {
            match v {
                IMExValV::Group(ev) => lemma_fresh_expr(*e, ev, ss, strict),
                _ => {},
            }
        },
    }
}

/// A fresh atom evaluator denotes exactly its atom.
pub proof fn lemma_fresh_atom<T>(a: AtomEval, av: QuantifiedIMExValV, ss: Seq<Seq<T>>, strict: bool)
    requires
        fresh_atom(a, av),
    ensures
        wf_atom(a),
        denote_atom(a, ss, strict) == eval_atom(av, ss, strict),
{
}

/// Starting one repetition — taking one repetition off the quantifier and
/// installing a fresh repetition state — does not change what the atom will
/// emit.
proof fn lemma_start_rep<T>(val: IMExVal, q: Quantifier, fresh: ValEval, ss: Seq<Seq<T>>, strict: bool)
    requires
        q.spec_available(),
        fresh_val(fresh, val@),
        wf_val(fresh),
    ensures
        wf_atom(
            AtomEval { val, quantifier: q.spec_decrement(), current: Some(fresh), produced: false },
        ),
        denote_atom(
            AtomEval { val, quantifier: q.spec_decrement(), current: Some(fresh), produced: false },
            ss,
            strict,
        ) == eval_quant(val@, q, ss, strict),
{
    lemma_fresh_val(fresh, val@, ss, strict);
    lemma_basic_val(val@, ss, strict);
    let oc = eval_val(val@, ss, strict);
    let a2 = AtomEval { val, quantifier: q.spec_decrement(), current: Some(fresh), produced: false };
    match q {
        Quantifier::Finite(n) => {
            assert(eval_quant(val@, q, ss, strict) == eval_repeat(val@, n as nat, ss, strict));
            if oc.err is Some || oc.out.len() == 0 {
                assert(denote_atom(a2, ss, strict) == oc);
                assert(eval_repeat(val@, n as nat, ss, strict) == oc);
            } else {
                assert(denote_atom(a2, ss, strict) =~~= eval_repeat(val@, n as nat, ss, strict));
            }
        },
        Quantifier::Infinite => {
            if oc.err is Some || oc.out.len() == 0 {
                assert(denote_atom(a2, ss, strict) == oc);
                assert(eval_repeat(val@, total_len(ss) + 1, ss, strict) == oc);
            } else {
                assert(total_len(oc.rest) + oc.out.len() == total_len(ss));
                lemma_repeat_stable(
                    val@,
                    total_len(ss),
                    total_len(oc.rest) + 1,
                    oc.rest,
                    strict,
                );
                assert(denote_atom(a2, ss, strict) =~~= eval_repeat(
                    val@,
                    total_len(ss) + 1,
                    ss,
                    strict,
                ));
            }
        },
    }
}

/// An atom whose repetition under way emits an item: the atom emits that
/// item, and stepping the repetition steps the atom.
proof fn lemma_atom_ok_step<T>(
    val: IMExVal,
    q: Quantifier,
    v_old: ValEval,
    v_new: ValEval,
    produced_old: bool,
    ss: Seq<Seq<T>>,
    ss2: Seq<Seq<T>>,
    strict: bool,
)
    requires
        denote_val(v_old, ss, strict).out.len() > 0,
        denote_val(v_new, ss2, strict) == step_tail(denote_val(v_old, ss, strict)),
    ensures
        ({
            let d = denote_atom(
                AtomEval { val, quantifier: q, current: Some(v_old), produced: produced_old },
                ss,
                strict,
            );
            let d2 = denote_atom(
                AtomEval { val, quantifier: q, current: Some(v_new), produced: true },
                ss2,
                strict,
            );
            let oc = denote_val(v_old, ss, strict);
            d.out.len() > 0 && d.out[0] == oc.out[0] && d2 == step_tail(d)
        }),
{
    let oc = denote_val(v_old, ss, strict);
    let oc2 = denote_val(v_new, ss2, strict);
    let d = denote_atom(
        AtomEval { val, quantifier: q, current: Some(v_old), produced: produced_old },
        ss,
        strict,
    );
    let d2 = denote_atom(
        AtomEval { val, quantifier: q, current: Some(v_new), produced: true },
        ss2,
        strict,
    );
    if oc.err is Some {
        assert(d == oc);
        assert(d2 == oc2);
        assert(d2 =~~= step_tail(d));
    } else {
        let o2 = eval_quant(val@, q, oc.rest, strict);
        assert(d == EvalOut::<T> { out: oc.out + o2.out, rest: o2.rest, err: o2.err });
        assert(d.out[0] == oc.out[0]);
        assert(oc2 == EvalOut::<T> { out: oc.out.drop_first(), rest: oc.rest, err: oc.err });
        assert(d2 == EvalOut::<T> { out: oc2.out + o2.out, rest: o2.rest, err: o2.err });
        assert((oc.out + o2.out).drop_first() =~= oc.out.drop_first() + o2.out);
        assert(d2 =~~= step_tail(d));
    }
}

impl ValEval {
    /// A repetition state for one atom value, before it has consumed
    /// anything.
    fn from_val(val: &IMExVal) -> (r: ValEval)
        ensures
            fresh_val(r, val@),
            wf_val(r),
            size_val_eval(r) < 2 + 4 * size_val(val@),
    {
        match val {
            IMExVal::Single(i) => ValEval::Single { index: *i, done: false },
            IMExVal::Group(e) => {
                let inner = e.duplicate();
                proof {
                    assert(atoms_of(inner.0@) == e@.atoms);
                }
                let r = ValEval::Group(
                    Box::new(ExprEval { atoms: inner.0, cursor: 0, current: None }),
                );
                proof {
                    let re = r->Group_0;
                    assert(re.remaining() =~= e@.atoms);
                    assert(size_val_eval(r) == 2 + 4 * size_atoms(e@.atoms));
                }
                r
            },
        }
    }

    /// One step of this repetition: its next item, an out-of-range error,
    /// or `None` once it has nothing further to give.
    pub fn iterate<T>(&mut self, sources: &mut Sources<T>, strict: bool) -> (r: Option<
        Result<T, MergeError>,
    >)
        requires
            wf_val(*old(self)),
        ensures
            wf_val(*final(self)),
            step_matches(denote_val(*old(self), old(sources)@, strict), r),
            denote_val(*final(self), final(sources)@, strict) == step_tail(
                denote_val(*old(self), old(sources)@, strict),
            ),
            !(r matches Some(x) && x is Ok) ==> final(sources)@ == old(sources)@,
        decreases size_val_eval(*old(self)),
    {
        let ghost ss = sources@;
        let ghost d = denote_val(*self, ss, strict);
        match self {
            ValEval::Single { index, done } => {
                if *done {
                    None
                } else {
                    let i = *index;
                    if i >= sources.len() {
                        if strict {
                            Some(Err(MergeError::IndexOutOfRange(i)))
                        } else {
                            *done = true;
                            None
                        }
                    } else {
                        match sources.pull(i) {
                            Some(t) => {
                                *done = true;
                                proof {
                                    assert(d.out == seq![ss[i as int][0]]);
                                    assert(d.out[0] == t);
                                    assert(denote_val(*self, sources@, strict) =~~= step_tail(d));
                                }
                                Some(Ok(t))
                            },
                            None => {
                                *done = true;
                                None
                            },
                        }
                    }
                }
            },
            ValEval::Group(e) => e.iterate(sources, strict),
        }
    }
}

impl AtomEval {
    /// An evaluator for one atom, standing before its first repetition.
    pub fn new(val: IMExVal, quantifier: Quantifier) -> (r: AtomEval)
        ensures
            fresh_atom(r, QuantifiedIMExValV { val: val@, quantifier }),
            wf_atom(r),
    {
        AtomEval { val, quantifier, current: None, produced: false }
    }

    /// One step of this atom: the next item of the repetition under way (or
    /// of a repetition newly begun), an out-of-range error, or `None` once
    /// the quantifier is spent or a repetition came up empty.
    #[verifier::rlimit(100)]
    pub fn iterate<T>(&mut self, sources: &mut Sources<T>, strict: bool) -> (r: Option<
        Result<T, MergeError>,
    >)
        requires
            wf_atom(*old(self)),
        ensures
            wf_atom(*final(self)),
            step_matches(denote_atom(*old(self), old(sources)@, strict), r),
            denote_atom(*final(self), final(sources)@, strict) == step_tail(
                denote_atom(*old(self), old(sources)@, strict),
            ),
            !(r matches Some(x) && x is Ok) ==> final(sources)@ == old(sources)@,
        decreases size_atom_eval(*old(self)),
    {
        let ghost ss = sources@;
        let ghost d = denote_atom(*self, ss, strict);
        if self.current.is_none() {
            let ghost q0 = self.quantifier;
            if self.quantifier.next().is_none() {
                proof {
                    assert(d == eval_quant(self.val@, q0, ss, strict));
                    assert(d == eval_done::<T>(ss));
                }
                return None;
            }
            let fresh = ValEval::from_val(&self.val);
            proof {
                lemma_start_rep(self.val, q0, fresh, ss, strict);
            }
            self.current = Some(fresh);
            self.produced = false;
        }
        proof {
            assert(denote_atom(*self, ss, strict) == d);
            assert(self.current is Some);
        }
        let ghost a_mid = *self;
        let r1 = match &mut self.current {
            Some(v) => v.iterate(sources, strict),
            None => unreached(),
        };
        let ghost v_old = a_mid.current->Some_0;
        let ghost oc = denote_val(v_old, ss, strict);
        match r1 {
            Some(res) => {
                match res {
                    Ok(t) => {
                        self.produced = true;
                        proof {
                            lemma_atom_ok_step(
                                a_mid.val,
                                a_mid.quantifier,
                                v_old,
                                self.current->Some_0,
                                a_mid.produced,
                                ss,
                                sources@,
                                strict,
                            );
                        }
                        Some(Ok(t))
                    },
                    Err(er) => {
                        proof {
                            assert(oc.out.len() == 0 && oc.err is Some);
                            assert(d == oc);
                            assert(denote_atom(*self, sources@, strict) == oc);
                        }
                        Some(Err(er))
                    },
                }
            },
            None => {
                proof {
                    assert(oc.out.len() == 0 && oc.err is None);
                    lemma_basic_denote_val(v_old, ss, strict);
                    assert(oc.rest == ss);
                }
                if !self.produced {
                    proof {
                        assert(d == oc);
                        assert(denote_atom(*self, sources@, strict) == oc);
                    }
                    return None;
                }
                proof {
                    assert(d =~~= eval_quant(a_mid.val@, a_mid.quantifier, ss, strict));
                }
                let ghost q1 = self.quantifier;
                if self.quantifier.next().is_none() {
                    proof {
                        assert(eval_quant(a_mid.val@, q1, ss, strict) == eval_done::<T>(ss));
                        assert(denote_atom(*self, sources@, strict) =~~= eval_done::<T>(ss));
                    }
                    return None;
                }
                let fresh = ValEval::from_val(&self.val);
                proof {
                    lemma_start_rep(self.val, q1, fresh, ss, strict);
                }
                self.current = Some(fresh);
                self.produced = false;
                proof {
                    assert(denote_atom(*self, ss, strict) == d);
                }
                let ghost a_mid2 = *self;
                let r2 = match &mut self.current {
                    Some(v2) => v2.iterate(sources, strict),
                    None => unreached(),
                };
                let ghost v_old2 = a_mid2.current->Some_0;
                let ghost oc2 = denote_val(v_old2, ss, strict);
                match r2 {
                    Some(res2) => {
                        match res2 {
                            Ok(t2) => {
                                self.produced = true;
                                proof {
                                    lemma_atom_ok_step(
                                        a_mid2.val,
                                        a_mid2.quantifier,
                                        v_old2,
                                        self.current->Some_0,
                                        a_mid2.produced,
                                        ss,
                                        sources@,
                                        strict,
                                    );
                                }
                                Some(Ok(t2))
                            },
                            Err(er2) => {
                                proof {
                                    assert(oc2.out.len() == 0 && oc2.err is Some);
                                    assert(d == oc2);
                                    assert(denote_atom(*self, sources@, strict) == oc2);
                                }
                                Some(Err(er2))
                            },
                        }
                    },
                    None => {
                        proof {
                            assert(oc2.out.len() == 0 && oc2.err is None);
                            assert(d == oc2);
                            assert(denote_atom(*self, sources@, strict) == oc2);
                        }
                        None
                    },
                }
            },
        }
    }
}

impl ExprEval {
    /// An evaluator standing at the start of the given expression.
    pub fn new(imex: IMEx) -> (r: ExprEval)
        ensures
            fresh_expr(r, imex@),
            wf_expr(r),
    {
        proof {
            assert(atoms_of(imex.0@) == imex@.atoms);
        }
        ExprEval { atoms: imex.0, cursor: 0, current: None }
    }

    /// One step of this expression: the next item of the active atom or of
    /// the atoms after it, an out-of-range error, or `None` once every atom
    /// is done.
    #[verifier::rlimit(100)]
    pub fn iterate<T>(&mut self, sources: &mut Sources<T>, strict: bool) -> (r: Option<
        Result<T, MergeError>,
    >)
        requires
            wf_expr(*old(self)),
        ensures
            wf_expr(*final(self)),
            step_matches(denote_expr(*old(self), old(sources)@, strict), r),
            denote_expr(*final(self), final(sources)@, strict) == step_tail(
                denote_expr(*old(self), old(sources)@, strict),
            ),
            !(r matches Some(x) && x is Ok) ==> final(sources)@ == old(sources)@,
        decreases size_expr_eval(*old(self)),
    {
        let ghost ss = sources@;
        let ghost d = denote_expr(*self, ss, strict);
        if self.current.is_some() {
            let ghost e_mid = *self;
            let r1 = match &mut self.current {
                Some(a) => a.iterate(sources, strict),
                None => unreached(),
            };
            let ghost a_old = *e_mid.current->Some_0;
            let ghost head = denote_atom(a_old, ss, strict);
            match r1 {
                Some(res) => {
                    match res {
                        Ok(t) => {
                            proof {
                                let o2 = eval_atoms(e_mid.remaining(), head.rest, strict);
                                if head.err is Some {
                                    assert(d == head);
                                    assert(denote_expr(*self, sources@, strict) =~~= step_tail(d));
                                } else {
                                    assert(head.out.len() > 0);
                                    assert(d == EvalOut::<T> {
                                        out: head.out + o2.out,
                                        rest: o2.rest,
                                        err: o2.err,
                                    });
                                    assert(d.out[0] == head.out[0]);
                                    assert((head.out + o2.out).drop_first() =~= head.out.drop_first()
                                        + o2.out);
                                    assert(denote_expr(*self, sources@, strict) =~~= step_tail(d));
                                }
                            }
                            return Some(Ok(t));
                        },
                        Err(er) => {
                            proof {
                                assert(head.out.len() == 0 && head.err is Some);
                                assert(d == head);
                                assert(denote_expr(*self, sources@, strict) == head);
                            }
                            return Some(Err(er));
                        },
                    }
                },
                None => {
                    proof {
                        assert(head.out.len() == 0 && head.err is None);
                        lemma_basic_denote_atom(a_old, ss, strict);
                        assert(head.rest == ss);
                        assert(d =~~= eval_atoms(e_mid.remaining(), ss, strict));
                    }
                    self.current = None;
                    proof {
                        assert(denote_expr(*self, sources@, strict) =~~= eval_atoms(
                            self.remaining(),
                            ss,
                            strict,
                        ));
                    }
                },
            }
        }
        // No atom is active: start the next one, if any is left.
        if self.cursor < self.atoms.len() {
            let ghost rem = self.remaining();
            let atom = self.atoms[self.cursor].duplicate();
            let started = AtomEval::new(atom.val, atom.quantifier);
            proof {
                lemma_atoms_of(self.atoms@);
                assert(rem[0] == self.atoms@[self.cursor as int]@);
                assert(rem.drop_first() =~= atoms_of(self.atoms@).skip(self.cursor as int + 1));
            }
            self.cursor = self.cursor + 1;
            self.current = Some(Box::new(started));
            proof {
                lemma_fresh_atom(started, rem[0], ss, strict);
                let head2 = denote_atom(started, ss, strict);
                assert(head2 == eval_atom(rem[0], ss, strict));
                assert(denote_expr(*self, ss, strict) =~~= eval_atoms(rem, ss, strict));
                assert(denote_expr(*self, ss, strict) == d);
            }
            self.iterate(sources, strict)
        } else {
            proof {
                lemma_atoms_of(self.atoms@);
                assert(self.remaining() =~= Seq::<QuantifiedIMExValV>::empty());
                assert(d =~~= eval_done::<T>(ss));
            }
            None
        }
    }
}

} // verus!
