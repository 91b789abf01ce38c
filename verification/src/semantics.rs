//! The meaning of an IMEx: what a merge produces.
//!
//! [`eval_imex`] gives, for an expression and the remaining contents of the
//! sources, the exact sequence of items the merge emits, the sources as they
//! stand afterwards, and the out-of-range error, if one is hit. Atoms are
//! walked strictly left to right; an atom's value is repeated as long as its
//! quantifier allows, but stops at the first repetition that produces
//! nothing (otherwise an unbounded atom over a dry source would never end).
//!
//! The `strict` flag is the out-of-range policy: under `strict` a `Single`
//! whose index has no source is a fatal error; otherwise it is treated like
//! an exhausted source and skipped.
//!
//! An unbounded quantifier is evaluated as a bounded one with budget
//! `total_len(ss) + 1`: every repetition that produces output consumes at
//! least one source item ([`lemma_eval_basic`]), so no run of repetitions
//! can be productive more than `total_len(ss)` times, and
//! [`lemma_repeat_stable`] shows any larger budget gives the same result.

use vstd::prelude::*;

use crate::expression::{IMExV, IMExValV, QuantifiedIMExValV};
use crate::quantifier::Quantifier;
use crate::sources::{lemma_total_len_update, total_len};

verus! {

/// What evaluating (part of) an expression yields: the items emitted in
/// order, the sources afterwards, and the index of the first out-of-range
/// reference, if one was hit (after `out` was emitted).
#[verifier::ext_equal]
pub struct EvalOut<T> {
    pub out: Seq<T>,
    pub rest: Seq<Seq<T>>,
    pub err: Option<int>,
}

/// Structural size of an atom value, used as a termination measure.
pub open spec fn size_val(v: IMExValV) -> nat
    decreases v,
{
    match v {
        IMExValV::Single(_) => 1,
        IMExValV::Group(e) => 1 + size_imex(e),
    }
}

/// Structural size of an expression.
pub open spec fn size_imex(e: IMExV) -> nat
    decreases e,
{
    1 + size_atoms(e.atoms)
}

/// Structural size of a sequence of atoms.
pub open spec fn size_atoms(s: Seq<QuantifiedIMExValV>) -> nat
    decreases s,
    via size_atoms_decreases
{
    if s.len() == 0 {
        0
    } else {
        1 + size_val(s[0].val) + size_atoms(s.drop_first())
    }
}

#[via_fn]
proof fn size_atoms_decreases(s: Seq<QuantifiedIMExValV>) {
    broadcast use vstd::seq::axiom_seq_index_decreases, vstd::seq::axiom_seq_subrange_decreases;

    if s.len() > 0 {
        assert(decreases_to!(s => s[0]));
        assert(s.drop_first() == s.subrange(1, s.len() as int));
    }
}

/// An evaluation result with nothing produced and nothing consumed.
pub open spec fn eval_done<T>(ss: Seq<Seq<T>>) -> EvalOut<T> {
    EvalOut { out: Seq::empty(), rest: ss, err: None }
}

/// One repetition of an atom value: a `Single` pulls one item from its
/// source (or errors, or yields nothing once the source is dry); a `Group`
/// is one full pass over its inner expression.
pub open spec fn eval_val<T>(v: IMExValV, ss: Seq<Seq<T>>, strict: bool) -> EvalOut<T>
    decreases size_val(v), 0int, 0int,
{
    match v {
        IMExValV::Single(i) => {
            if i >= ss.len() {
                if strict {
                    EvalOut { out: Seq::empty(), rest: ss, err: Some(i as int) }
                } else {
                    eval_done(ss)
                }
            } else if ss[i as int].len() == 0 {
                eval_done(ss)
            } else {
                EvalOut {
                    out: seq![ss[i as int][0]],
                    rest: ss.update(i as int, ss[i as int].drop_first()),
                    err: None,
                }
            }
        },
        IMExValV::Group(e) => eval_imex(e, ss, strict),
    }
}

/// Up to `n` repetitions of an atom value, stopping at an error or at the
/// first repetition that produces nothing.
pub open spec fn eval_repeat<T>(v: IMExValV, n: nat, ss: Seq<Seq<T>>, strict: bool) -> EvalOut<T>
    decreases size_val(v), 1int, n,
{
    if n == 0 {
        eval_done(ss)
    } else {
        let o1 = eval_val(v, ss, strict);
        if o1.err is Some || o1.out.len() == 0 {
            o1
        } else {
            let o2 = eval_repeat(v, (n - 1) as nat, o1.rest, strict);
            EvalOut { out: o1.out + o2.out, rest: o2.rest, err: o2.err }
        }
    }
}

/// The repetitions a quantifier allows, as a repetition budget.
pub open spec fn eval_quant<T>(v: IMExValV, q: Quantifier, ss: Seq<Seq<T>>, strict: bool) -> EvalOut<T>
    decreases size_val(v), 2int, 0int,
{
    match q {
        Quantifier::Finite(n) => eval_repeat(v, n as nat, ss, strict),
        Quantifier::Infinite => eval_repeat(v, total_len(ss) + 1, ss, strict),
    }
}

/// One whole atom: its value, repeated as its quantifier allows.
pub open spec fn eval_atom<T>(a: QuantifiedIMExValV, ss: Seq<Seq<T>>, strict: bool) -> EvalOut<T>
    decreases size_val(a.val), 3int, 0int,
{
    eval_quant(a.val, a.quantifier, ss, strict)
}

/// A sequence of atoms, left to right, stopping at the first error.
pub open spec fn eval_atoms<T>(s: Seq<QuantifiedIMExValV>, ss: Seq<Seq<T>>, strict: bool) -> EvalOut<T>
    decreases size_atoms(s), 4int, 0int,
{
    if s.len() == 0 {
        eval_done(ss)
    } else {
        let o1 = eval_atom(s[0], ss, strict);
        if o1.err is Some {
            o1
        } else {
            let o2 = eval_atoms(s.drop_first(), o1.rest, strict);
            EvalOut { out: o1.out + o2.out, rest: o2.rest, err: o2.err }
        }
    }
}

/// A whole expression: all of its atoms in order.
pub open spec fn eval_imex<T>(e: IMExV, ss: Seq<Seq<T>>, strict: bool) -> EvalOut<T>
    decreases size_imex(e), 0int, 0int,
{
    eval_atoms(e.atoms, ss, strict)
}

/// The shape every evaluation result has: the number of sources never
/// changes, each emitted item consumes exactly one source item, and an
/// evaluation that emits nothing and hits no error leaves the sources
/// untouched.
pub open spec fn basic<T>(o: EvalOut<T>, ss: Seq<Seq<T>>) -> bool {
    &&& o.rest.len() == ss.len()
    &&& total_len(o.rest) + o.out.len() == total_len(ss)
    &&& (o.out.len() == 0 && o.err is None ==> o.rest == ss)
}

pub proof fn lemma_basic_val<T>(v: IMExValV, ss: Seq<Seq<T>>, strict: bool)
    ensures
        basic(eval_val(v, ss, strict), ss),
    decreases size_val(v), 0int, 0int,
{
    match v {
        IMExValV::Single(i) => {
            if i < ss.len() && ss[i as int].len() > 0 {
                lemma_total_len_update(ss, i as int);
            }
        },
        IMExValV::Group(e) => lemma_basic_imex(e, ss, strict),
    }
}

pub proof fn lemma_basic_repeat<T>(v: IMExValV, n: nat, ss: Seq<Seq<T>>, strict: bool)
    ensures
        basic(eval_repeat(v, n, ss, strict), ss),
    decreases size_val(v), 1int, n,
{
    if n > 0 {
        lemma_basic_val(v, ss, strict);
        let o1 = eval_val(v, ss, strict);
        if !(o1.err is Some || o1.out.len() == 0) {
            lemma_basic_repeat(v, (n - 1) as nat, o1.rest, strict);
        }
    }
}

pub proof fn lemma_basic_quant<T>(v: IMExValV, q: Quantifier, ss: Seq<Seq<T>>, strict: bool)
    ensures
        basic(eval_quant(v, q, ss, strict), ss),
    decreases size_val(v), 2int, 0int,
{
    match q {
        Quantifier::Finite(n) => lemma_basic_repeat(v, n as nat, ss, strict),
        Quantifier::Infinite => lemma_basic_repeat(v, total_len(ss) + 1, ss, strict),
    }
}

pub proof fn lemma_basic_atom<T>(a: QuantifiedIMExValV, ss: Seq<Seq<T>>, strict: bool)
    ensures
        basic(eval_atom(a, ss, strict), ss),
    decreases size_val(a.val), 3int, 0int,
{
    lemma_basic_quant(a.val, a.quantifier, ss, strict);
}

pub proof fn lemma_basic_atoms<T>(s: Seq<QuantifiedIMExValV>, ss: Seq<Seq<T>>, strict: bool)
    ensures
        basic(eval_atoms(s, ss, strict), ss),
    decreases size_atoms(s), 4int, 0int,
{
    if s.len() > 0 {
        lemma_basic_atom(s[0], ss, strict);
        let o1 = eval_atom(s[0], ss, strict);
        if !(o1.err is Some) {
            lemma_basic_atoms(s.drop_first(), o1.rest, strict);
        }
    }
}

pub proof fn lemma_basic_imex<T>(e: IMExV, ss: Seq<Seq<T>>, strict: bool)
    ensures
        basic(eval_imex(e, ss, strict), ss),
    decreases size_imex(e), 0int, 0int,
{
    lemma_basic_atoms(e.atoms, ss, strict);
}

/// Without the strict policy there is no error to hit: an out-of-range
/// reference acts like an exhausted source.
pub proof fn lemma_noerr_val<T>(v: IMExValV, ss: Seq<Seq<T>>)
    ensures
        eval_val(v, ss, false).err is None,
    decreases size_val(v), 0int, 0int,
{
    match v {
        IMExValV::Single(_) => {},
        IMExValV::Group(e) => lemma_noerr_imex(e, ss),
    }
}

pub proof fn lemma_noerr_repeat<T>(v: IMExValV, n: nat, ss: Seq<Seq<T>>)
    ensures
        eval_repeat(v, n, ss, false).err is None,
    decreases size_val(v), 1int, n,
{
    if n > 0 {
        lemma_noerr_val(v, ss);
        let o1 = eval_val(v, ss, false);
        if !(o1.err is Some || o1.out.len() == 0) {
            lemma_noerr_repeat(v, (n - 1) as nat, o1.rest);
        }
    }
}

pub proof fn lemma_noerr_quant<T>(v: IMExValV, q: Quantifier, ss: Seq<Seq<T>>)
    ensures
        eval_quant(v, q, ss, false).err is None,
    decreases size_val(v), 2int, 0int,
{
    match q {
        Quantifier::Finite(n) => lemma_noerr_repeat(v, n as nat, ss),
        Quantifier::Infinite => lemma_noerr_repeat(v, total_len(ss) + 1, ss),
    }
}

pub proof fn lemma_noerr_atoms<T>(s: Seq<QuantifiedIMExValV>, ss: Seq<Seq<T>>)
    ensures
        eval_atoms(s, ss, false).err is None,
    decreases size_atoms(s), 4int, 0int,
{
    if s.len() > 0 {
        lemma_noerr_quant(s[0].val, s[0].quantifier, ss);
        let o1 = eval_atom(s[0], ss, false);
        if !(o1.err is Some) {
            lemma_noerr_atoms(s.drop_first(), o1.rest);
        }
    }
}

pub proof fn lemma_noerr_imex<T>(e: IMExV, ss: Seq<Seq<T>>)
    ensures
        eval_imex(e, ss, false).err is None,
    decreases size_imex(e), 0int, 0int,
{
    lemma_noerr_atoms(e.atoms, ss);
}

/// An empty expression yields nothing and touches nothing, whatever the
/// sources hold.
pub proof fn lemma_empty_imex_yields_nothing<T>(ss: Seq<Seq<T>>, strict: bool)
    ensures
        eval_imex(IMExV { atoms: Seq::empty() }, ss, strict) == eval_done::<T>(ss),
{
}

/// Any two repetition budgets that cover every possibly-productive
/// repetition give the same result: beyond `total_len(ss) + 1` the exact
/// budget of an unbounded quantifier does not matter.
pub proof fn lemma_repeat_stable<T>(v: IMExValV, n1: nat, n2: nat, ss: Seq<Seq<T>>, strict: bool)
    requires
        n1 >= total_len(ss) + 1,
        n2 >= total_len(ss) + 1,
    ensures
        eval_repeat(v, n1, ss, strict) == eval_repeat(v, n2, ss, strict),
    decreases n1,
{
    let o1 = eval_val(v, ss, strict);
    if !(o1.err is Some || o1.out.len() == 0) {
        lemma_basic_val(v, ss, strict);
        lemma_repeat_stable(v, (n1 - 1) as nat, (n2 - 1) as nat, o1.rest, strict);
    }
}

} // verus!
