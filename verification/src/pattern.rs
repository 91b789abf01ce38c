//! A whole pattern as one quantified unit, with an eager merge.
//!
//! A [`Pattern`] is a repeat-counted node of the pattern tree: a single
//! source reference or a group of sub-patterns. [`Pattern::from`] wraps the
//! parsed text in one group repeated once, so a `Pattern` corresponds to
//! one quantified atom and its view is a [`QuantifiedIMExValV`].
//! [`Pattern::merge_streams`] runs the whole merge at once under the
//! strict out-of-range policy.

use vstd::prelude::*;

use crate::eval::MergeError;
use crate::expression::{
    atoms_of, lemma_atoms_of, IMEx, IMExV, IMExVal, IMExValV, QuantifiedIMExVal,
    QuantifiedIMExValV,
};
use crate::parser::{parse_mx, ParseErrV, SyntaxError};
use crate::paste_iter::PasteIter;
use crate::quantifier::Quantifier;
use crate::repeater::Repeater;
use crate::semantics::{eval_atom, eval_atoms, eval_imex, EvalOut};
use crate::sources::seqs_of;

verus! {

broadcast use vstd::seq::axiom_seq_index_decreases, vstd::std_specs::vec::axiom_vec_decreases_to_view;

/// What one pattern node repeats: one source reference, or a group of
/// sub-patterns walked in order.
#[derive(PartialEq, Debug)]
pub enum PatternData {
    Single(usize),
    Group(Vec<Pattern>),
}

/// A repeat-counted node of a pattern tree.
#[derive(PartialEq, Debug)]
pub struct Pattern {
    pub data: PatternData,
    pub repeater: Repeater,
}

/// The views of the first `n` sub-patterns of `s`, as quantified atoms.
pub open spec fn patterns_view(s: Seq<Pattern>, n: int) -> Seq<QuantifiedIMExValV>
    decreases s, n,
    via patterns_view_decreases
{
    if n <= 0 || n > s.len() {
        Seq::empty()
    } else {
        patterns_view(s, n - 1).push(s[n - 1].view())
    }
}

#[via_fn]
proof fn patterns_view_decreases(s: Seq<Pattern>, n: int) {
    if 0 < n <= s.len() {
        assert(decreases_to!(s => s[n - 1]));
    }
}

/// The views of a whole run of sub-patterns.
pub open spec fn patterns_of(s: Seq<Pattern>) -> Seq<QuantifiedIMExValV> {
    patterns_view(s, s.len() as int)
}

impl View for Pattern {
    type V = QuantifiedIMExValV;

    open spec fn view(&self) -> QuantifiedIMExValV
        decreases self,
    {
        QuantifiedIMExValV {
            val: match self.data {
                PatternData::Single(i) => IMExValV::Single(i as nat),
                PatternData::Group(ps) => IMExValV::Group(
                    IMExV { atoms: patterns_view(ps@, ps@.len() as int) },
                ),
            },
            quantifier: self.repeater,
        }
    }
}

/// The view of a run of sub-patterns, element by element.
pub proof fn lemma_patterns_of(s: Seq<Pattern>)
    ensures
        patterns_of(s).len() == s.len(),
        forall|i: int| 0 <= i < s.len() ==> patterns_of(s)[i] == s[i]@,
{
    lemma_patterns_view(s, s.len() as int);
}

proof fn lemma_patterns_view(s: Seq<Pattern>, n: int)
    requires
        0 <= n <= s.len(),
    ensures
        patterns_view(s, n).len() == n,
        forall|i: int| 0 <= i < n ==> patterns_view(s, n)[i] == s[i]@,
    decreases n,
{
    if n > 0 {
        lemma_patterns_view(s, n - 1);
        assert(patterns_view(s, n) == patterns_view(s, n - 1).push(s[n - 1]@));
    } else {
        assert(patterns_view(s, n) == Seq::<QuantifiedIMExValV>::empty());
    }
}

/// One parsed atom as a pattern node.
fn atom_to_pattern(a: QuantifiedIMExVal) -> (r: Pattern)
    ensures
        r@ == a@,
    decreases a,
{
    let QuantifiedIMExVal { val, quantifier } = a;
    let data = match val {
        IMExVal::Single(i) => PatternData::Single(i),
        IMExVal::Group(e) => PatternData::Group(imex_to_patterns(e)),
    };
    Pattern { data, repeater: quantifier }
}

/// A parsed expression's atoms as pattern nodes.
#[verifier::loop_isolation(false)]
fn imex_to_patterns(e: IMEx) -> (r: Vec<Pattern>)
    ensures
        patterns_of(r@) == e@.atoms,
    decreases e,
{
    let ghost ev = e@;
    let ghost ge = e;
    let mut atoms = e.0;
    let ghost gatoms = atoms@;
    let mut out: Vec<Pattern> = Vec::new();
    let n = atoms.len();
    let mut i: usize = 0;
    while i < n
        invariant
            i <= n,
            n == atoms@.len(),
            atoms@.len() == gatoms.len(),
            ge.0@ == gatoms,
            forall|j: int| i <= j < gatoms.len() ==> atoms@[j] == gatoms[j],
            out@.len() == i,
            forall|j: int| 0 <= j < i ==> out@[j]@ == gatoms[j]@,
        decreases n - i,
    {
        let mut taken = QuantifiedIMExVal {
            val: IMExVal::Single(0),
            quantifier: Quantifier::Finite(0),
        };
        core::mem::swap(&mut atoms[i], &mut taken);
        proof {
            assert(taken == ge.0@[i as int]);
            assert(decreases_to!(ge => taken));
        }
        out.push(atom_to_pattern(taken));
        i = i + 1;
    }
    proof {
        lemma_patterns_of(out@);
        lemma_atoms_of(gatoms);
        assert(patterns_of(out@) =~= ev.atoms);
    }
    out
}

/// One pattern node as a parsed atom.
fn pattern_to_atom(p: Pattern) -> (r: QuantifiedIMExVal)
    ensures
        r@ == p@,
    decreases p,
{
    let Pattern { data, repeater } = p;
    let val = match data {
        PatternData::Single(i) => IMExVal::Single(i),
        PatternData::Group(ps) => IMExVal::Group(patterns_to_imex(ps)),
    };
    QuantifiedIMExVal { val, quantifier: repeater }
}

/// A run of pattern nodes as a parsed expression.
#[verifier::loop_isolation(false)]
fn patterns_to_imex(ps: Vec<Pattern>) -> (r: IMEx)
    ensures
        r@.atoms == patterns_of(ps@),
    decreases ps,
{
    let ghost gps = ps@;
    let ghost gv = ps;
    let mut rest = ps;
    let mut out: Vec<QuantifiedIMExVal> = Vec::new();
    let n = rest.len();
    let mut i: usize = 0;
    while i < n
        invariant
            i <= n,
            n == rest@.len(),
            rest@.len() == gps.len(),
            gv@ == gps,
            forall|j: int| i <= j < gps.len() ==> rest@[j] == gps[j],
            out@.len() == i,
            forall|j: int| 0 <= j < i ==> out@[j]@ == gps[j]@,
        decreases n - i,
    {
        let mut taken = Pattern { data: PatternData::Single(0), repeater: Repeater::Finite(0) };
        core::mem::swap(&mut rest[i], &mut taken);
        proof {
            assert(taken == gv@[i as int]);
            assert(decreases_to!(gv => taken));
        }
        out.push(pattern_to_atom(taken));
        i = i + 1;
    }
    let r = IMEx(out);
    proof {
        lemma_atoms_of(out@);
        lemma_patterns_of(gps);
        assert(r@.atoms =~= patterns_of(gps));
    }
    r
}

impl Pattern {
    /// Parses pattern text into a [`Pattern`]: the whole text becomes one
    /// group repeated once. Rejections are exactly those of [`parse_mx`].
    pub fn from(pattern: &str) -> (r: Result<Pattern, SyntaxError>)
        ensures
            match r {
                Ok(p) => parse_mx(pattern@) matches Ok(ev) && p@ == (QuantifiedIMExValV {
                    val: IMExValV::Group(ev),
                    quantifier: Quantifier::Finite(1),
                }),
                Err(er) => parse_mx(pattern@) == Err::<IMExV, ParseErrV>(
                    ParseErrV { kind: er.kind, pos: er.pos as int },
                ),
            },
    {
        match IMEx::from(pattern) {
            Ok(e) => {
                let ghost ev = e@;
                let inner = imex_to_patterns(e);
                let p = Pattern {
                    data: PatternData::Group(inner),
                    repeater: Repeater::Finite(1),
                };
                proof {
                    assert(p@.val == IMExValV::Group(IMExV { atoms: patterns_of(inner@) }));
                    assert(IMExV { atoms: patterns_of(inner@) } == ev);
                }
                Ok(p)
            },
            Err(er) => Err(er),
        }
    }

    /// Runs the whole merge at once: every item this pattern pulls from
    /// `streams`, in order, or the out-of-range error if the pattern
    /// references a source position that `streams` does not have. The
    /// streams are consumed.
    pub fn merge_streams<T>(&self, streams: &mut Vec<Vec<T>>) -> (r: Result<Vec<T>, MergeError>)
        ensures
            final(streams)@.len() == 0,
            match r {
                Ok(out) => eval_atom(self@, seqs_of(*old(streams)), true).err is None && out@
                    == eval_atom(self@, seqs_of(*old(streams)), true).out,
                Err(er) => eval_atom(self@, seqs_of(*old(streams)), true).err matches Some(i)
                    && er == MergeError::IndexOutOfRange(i as usize),
            },
    {
        let ghost ss = seqs_of(*streams);
        let atom = pattern_to_atom(self.duplicate());
        let mut atoms: Vec<QuantifiedIMExVal> = Vec::new();
        atoms.push(atom);
        let e = IMEx(atoms);
        proof {
            lemma_atoms_of(e.0@);
            assert(e@.atoms =~= seq![self@]);
            let o1 = eval_atom(self@, ss, true);
            crate::semantics::lemma_basic_atom(self@, ss, true);
            if !(o1.err is Some) {
                assert(eval_imex(e@, ss, true) =~~= o1);
            } else {
                assert(eval_imex(e@, ss, true) == o1);
            }
        }
        let mut taken: Vec<Vec<T>> = Vec::new();
        core::mem::swap(streams, &mut taken);
        let mut merge = PasteIter::from_imex(taken, e);
        merge.collect_remaining()
    }

    /// A structurally equal copy.
    #[verifier::loop_isolation(false)]
    pub fn duplicate(&self) -> (r: Pattern)
        ensures
            r@ == self@,
        decreases self,
    {
        let data = match &self.data {
            PatternData::Single(i) => PatternData::Single(*i),
            PatternData::Group(ps) => {
                let mut out: Vec<Pattern> = Vec::new();
                let n = ps.len();
                let mut i: usize = 0;
                while i < n
                    invariant
                        i <= n,
                        n == ps@.len(),
                        out@.len() == i,
                        forall|j: int| 0 <= j < i ==> out@[j]@ == ps@[j]@,
                    decreases n - i,
                {
                    let p = ps[i].duplicate();
                    out.push(p);
                    i = i + 1;
                }
                proof {
                    lemma_patterns_of(out@);
                    lemma_patterns_of(ps@);
                    assert(patterns_of(out@) =~= patterns_of(ps@));
                }
                PatternData::Group(out)
            },
        };
        Pattern { data, repeater: self.repeater }
    }
}

} // verus!
