//! The parsed form of an IMEx: an ordered sequence of quantified atoms,
//! where each atom is either a single source reference or a nested group.
//!
//! The mathematical model of an expression is given by the ghost types
//! [`IMExV`], [`QuantifiedIMExValV`] and [`IMExValV`], reached through the
//! `view` (`@`) of each executable type.

use vstd::prelude::*;

use crate::quantifier::Quantifier;

verus! {

broadcast use vstd::seq::axiom_seq_index_decreases, vstd::std_specs::vec::axiom_vec_decreases_to_view;

/// Ghost model of an atom's value: a source index or a nested expression.
#[verifier::ext_equal]
pub enum IMExValV {
    Single(nat),
    Group(IMExV),
}

/// Ghost model of a quantified atom.
#[verifier::ext_equal]
pub struct QuantifiedIMExValV {
    pub val: IMExValV,
    pub quantifier: Quantifier,
}

/// Ghost model of a whole expression: its atoms in order.
#[verifier::ext_equal]
pub struct IMExV {
    pub atoms: Seq<QuantifiedIMExValV>,
}

/// A quantifiable value in a parsed IMEx: either a `Single`, which holds the
/// index of the source to pull from, or a `Group`, which holds a nested
/// parsed IMEx.
#[derive(PartialEq, Debug)]
pub enum IMExVal {
    Single(usize),
    Group(IMEx),
}

/// An [`IMExVal`] together with the [`Quantifier`] that controls how often
/// it is repeated.
#[derive(PartialEq, Debug)]
pub struct QuantifiedIMExVal {
    pub val: IMExVal,
    pub quantifier: Quantifier,
}

/// A parsed IMEx: a sequence of quantified atoms, possibly empty.
#[derive(PartialEq, Debug)]
pub struct IMEx(pub Vec<QuantifiedIMExVal>);

impl View for IMExVal {
    type V = IMExValV;

    open spec fn view(&self) -> IMExValV
        decreases self,
    {
        match self {
            IMExVal::Single(i) => IMExValV::Single(*i as nat),
            IMExVal::Group(e) => IMExValV::Group(e.view()),
        }
    }
}

impl View for QuantifiedIMExVal {
    type V = QuantifiedIMExValV;

    open spec fn view(&self) -> QuantifiedIMExValV
        decreases self,
    {
        QuantifiedIMExValV { val: self.val.view(), quantifier: self.quantifier }
    }
}

/// The views of the first `n` atoms of `s`, in order.
pub open spec fn atoms_view(s: Seq<QuantifiedIMExVal>, n: int) -> Seq<QuantifiedIMExValV>
    decreases s, n,
    via atoms_view_decreases
{
    if n <= 0 || n > s.len() {
        Seq::empty()
    } else {
        atoms_view(s, n - 1).push(s[n - 1].view())
    }
}

#[via_fn]
proof fn atoms_view_decreases(s: Seq<QuantifiedIMExVal>, n: int) {
    if 0 < n <= s.len() {
        assert(decreases_to!(s => s[n - 1]));
    }
}

/// The views of a whole run of atoms.
pub open spec fn atoms_of(s: Seq<QuantifiedIMExVal>) -> Seq<QuantifiedIMExValV> {
    atoms_view(s, s.len() as int)
}

impl View for IMEx {
    type V = IMExV;

    open spec fn view(&self) -> IMExV
        decreases self,
    {
        IMExV { atoms: atoms_view(self.0@, self.0@.len() as int) }
    }
}

/// Relates [`atoms_view`] to the views of the single atoms.
pub proof fn lemma_atoms_view(s: Seq<QuantifiedIMExVal>, n: int)
    requires
        0 <= n <= s.len(),
    ensures
        atoms_view(s, n).len() == n,
        forall|i: int| 0 <= i < n ==> atoms_view(s, n)[i] == s[i]@,
    decreases n,
{
    if n > 0 {
        lemma_atoms_view(s, n - 1);
        assert(atoms_view(s, n) == atoms_view(s, n - 1).push(s[n - 1]@));
    } else {
        assert(atoms_view(s, n) == Seq::<QuantifiedIMExValV>::empty());
    }
}

/// The view of a run of atoms, element by element.
pub broadcast proof fn lemma_atoms_of(s: Seq<QuantifiedIMExVal>)
    ensures
        (#[trigger] atoms_of(s)).len() == s.len(),
        forall|i: int| 0 <= i < s.len() ==> atoms_of(s)[i] == s[i]@,
{
    lemma_atoms_view(s, s.len() as int);
}

/// Appending an atom appends its view.
pub proof fn lemma_atoms_of_push(s: Seq<QuantifiedIMExVal>, a: QuantifiedIMExVal)
    ensures
        atoms_of(s.push(a)) == atoms_of(s).push(a@),
{
    lemma_atoms_of(s);
    lemma_atoms_of(s.push(a));
    assert(atoms_of(s.push(a)) =~= atoms_of(s).push(a@));
}

impl IMExVal {
    /// A structurally equal copy.
    pub fn duplicate(&self) -> (r: IMExVal)
        ensures
            r@ == self@,
        decreases self,
    {
        match self {
            IMExVal::Single(i) => IMExVal::Single(*i),
            IMExVal::Group(e) => IMExVal::Group(e.duplicate()),
        }
    }
}

impl IMEx {
    /// A structurally equal copy.
    pub fn duplicate(&self) -> (r: IMEx)
        ensures
            r@ == self@,
        decreases self,
    {
        let mut out: Vec<QuantifiedIMExVal> = Vec::new();
        let n = self.0.len();
        let mut i: usize = 0;
        while i < n
            invariant
                i <= n,
                n == self.0@.len(),
                out@.len() == i,
                forall|j: int| 0 <= j < i ==> out@[j]@ == self.0@[j]@,
            decreases n - i,
        {
            let a = self.0[i].duplicate();
            out.push(a);
            i = i + 1;
        }
        let r = IMEx(out);
        proof {
            lemma_atoms_of(out@);
            lemma_atoms_of(self.0@);
            assert(atoms_of(out@) =~= atoms_of(self.0@));
            assert(r@ == self@);
        }
        r
    }
}

impl QuantifiedIMExVal {
    /// A structurally equal copy.
    pub fn duplicate(&self) -> (r: QuantifiedIMExVal)
        ensures
            r@ == self@,
        decreases self,
    {
        QuantifiedIMExVal { val: self.val.duplicate(), quantifier: self.quantifier }
    }

    /// Pairs a value with a quantifier.
    pub fn new(val: IMExVal, quantifier: Quantifier) -> (r: QuantifiedIMExVal)
        ensures
            r@ == (QuantifiedIMExValV { val: val@, quantifier }),
    {
        QuantifiedIMExVal { val, quantifier }
    }

    /// The value of this atom.
    pub fn get_val(&self) -> (r: &IMExVal)
        ensures
            r@ == self@.val,
    {
        &self.val
    }

    /// The quantifier of this atom.
    pub fn get_quantifier(&self) -> (r: &Quantifier)
        ensures
            *r == self@.quantifier,
    {
        &self.quantifier
    }
}

} // verus!
