//! Printing an expression back as pattern text, and the proof that the
//! printed text re-parses to a structurally equal expression.
//!
//! [`render_imex`] gives the canonical text of an expression: digits for
//! `Single` atoms, parentheses around groups, `*` for an unbounded
//! quantifier, `{n}` for a bounded one — except `{1}`, the default, which
//! prints as nothing. [`lemma_parse_render`] shows that parsing the
//! rendering gives the expression back, and [`lemma_reparse_printed`]
//! specializes that to expressions that themselves came out of the parser.

use vstd::prelude::*;

use crate::expression::{IMEx, IMExV, IMExVal, IMExValV, QuantifiedIMExVal, QuantifiedIMExValV};
use crate::parser::{
    digit_val, flush_pending, is_digit, lemma_parse_chars_app, parse_chars, parse_finish,
    parse_mx, parse_step, BraceV, ParseErrV, ParseSt, SyntaxErrorKind, st_init,
};
use crate::quantifier::Quantifier;
use crate::semantics::{size_atoms, size_val};

verus! {

/// The decimal digit character for one value below ten.
pub open spec fn render_digit(d: nat) -> char {
    if d == 0 {
        '0'
    } else if d == 1 {
        '1'
    } else if d == 2 {
        '2'
    } else if d == 3 {
        '3'
    } else if d == 4 {
        '4'
    } else if d == 5 {
        '5'
    } else if d == 6 {
        '6'
    } else if d == 7 {
        '7'
    } else if d == 8 {
        '8'
    } else {
        '9'
    }
}

proof fn lemma_render_digit(d: nat)
    requires
        d <= 9,
    ensures
        is_digit(render_digit(d)),
        digit_val(render_digit(d)) == d,
{
}

/// The decimal rendering of a repeat count.
pub open spec fn render_count(n: nat) -> Seq<char>
    decreases n,
{
    if n < 10 {
        seq![render_digit(n)]
    } else {
        render_count(n / 10).push(render_digit(n % 10))
    }
}

/// The rendering of a quantifier: nothing for the default `{1}`.
pub open spec fn render_quant(q: Quantifier) -> Seq<char> {
    match q {
        Quantifier::Infinite => seq!['*'],
        Quantifier::Finite(n) => if n == 1 {
            Seq::empty()
        } else {
            seq!['{'] + render_count(n as nat) + seq!['}']
        },
    }
}

/// The rendering of an atom value.
pub open spec fn render_val(v: IMExValV) -> Seq<char>
    decreases size_val(v), 0int, 0int,
{
    match v {
        IMExValV::Single(i) => seq![render_digit(i)],
        IMExValV::Group(e) => seq!['('] + render_atoms(e.atoms) + seq![')'],
    }
}

/// The rendering of a run of atoms.
pub open spec fn render_atoms(s: Seq<QuantifiedIMExValV>) -> Seq<char>
    decreases size_atoms(s), 1int, 0int,
{
    if s.len() == 0 {
        Seq::empty()
    } else {
        render_val(s[0].val) + render_quant(s[0].quantifier) + render_atoms(s.drop_first())
    }
}

/// The canonical pattern text of an expression.
pub open spec fn render_imex(e: IMExV) -> Seq<char> {
    render_atoms(e.atoms)
}

/// Whether every source reference in a value is a single digit, as the
/// pattern language requires.
pub open spec fn digits_val(v: IMExValV) -> bool
    decreases size_val(v), 0int, 0int,
{
    match v {
        IMExValV::Single(i) => i <= 9,
        IMExValV::Group(e) => digits_atoms(e.atoms),
    }
}

pub open spec fn digits_atoms(s: Seq<QuantifiedIMExValV>) -> bool
    decreases size_atoms(s), 1int, 0int,
{
    s.len() == 0 || (digits_val(s[0].val) && digits_atoms(s.drop_first()))
}

/// Whether every source reference in an expression is a single digit.
pub open spec fn digits_imex(e: IMExV) -> bool {
    digits_atoms(e.atoms)
}

/// Parsing the digits of a count accumulates exactly that count.
proof fn lemma_parse_count(n: nat, t: IMExValV, s0: bool, st: ParseSt, pos: int)
    requires
        n <= usize::MAX,
        st.brace == Some(BraceV { target: t, count: 0nat, seen: s0 }),
    ensures
        parse_chars(render_count(n), st, pos) == Ok::<ParseSt, ParseErrV>(
            ParseSt { brace: Some(BraceV { target: t, count: n, seen: true }), ..st },
        ),
    decreases n,
{
    lemma_parse_count_from(n, 0, t, s0, st, pos);
}

/// Parsing further digits extends an already accumulated count decimally.
proof fn lemma_parse_count_from(n: nat, c: nat, t: IMExValV, s0: bool, st: ParseSt, pos: int)
    requires
        c * pow10(digits_len(n)) + n <= usize::MAX,
        st.brace == Some(BraceV { target: t, count: c, seen: s0 }),
    ensures
        parse_chars(render_count(n), st, pos) == Ok::<ParseSt, ParseErrV>(
            ParseSt {
                brace: Some(
                    BraceV { target: t, count: c * pow10(digits_len(n)) + n, seen: true },
                ),
                ..st
            },
        ),
    decreases n,
{
    if n < 10 {
        let c2 = c * 10 + n;
        reveal_with_fuel(pow10, 2);
        assert(pow10(digits_len(n)) == 10);
        lemma_render_digit(n);
        reveal_with_fuel(parse_chars, 2);
        assert(render_count(n) =~= seq![render_digit(n)]);
        assert(render_count(n).drop_first() =~= Seq::<char>::empty());
        assert(parse_step(st, render_digit(n), pos) == Ok::<ParseSt, ParseErrV>(
            ParseSt { brace: Some(BraceV { target: t, count: c2, seen: true }), ..st },
        ));
    } else {
        let hi = n / 10;
        let lo = n % 10;
        assert(n == hi * 10 + lo) by {
            vstd::arithmetic::div_mod::lemma_fundamental_div_mod(n as int, 10);
        }
        assert(digits_len(n) == digits_len(hi) + 1);
        assert(pow10(digits_len(n)) == pow10(digits_len(hi)) * 10);
        let chi = c * pow10(digits_len(hi)) + hi;
        assert(c * pow10(digits_len(n)) + n == (c * pow10(digits_len(hi)) + hi) * 10 + lo)
            by (nonlinear_arith)
            requires
                n == hi * 10 + lo,
                pow10(digits_len(n)) == pow10(digits_len(hi)) * 10,
        ;
        assert(chi * 10 + lo <= usize::MAX);
        assert(chi <= chi * 10);
        lemma_parse_count_from(hi, c, t, s0, st, pos);
        let mid = ParseSt { brace: Some(BraceV { target: t, count: chi, seen: true }), ..st };
        assert(render_count(n) =~= render_count(hi) + seq![render_digit(lo)]);
        lemma_parse_chars_app(render_count(hi), seq![render_digit(lo)], st, pos);
        lemma_render_digit(lo);
        reveal_with_fuel(parse_chars, 2);
        assert(seq![render_digit(lo)].drop_first() =~= Seq::<char>::empty());
        assert(parse_step(mid, render_digit(lo), pos + render_count(hi).len()) == Ok::<
            ParseSt,
            ParseErrV,
        >(
            ParseSt {
                brace: Some(BraceV { target: t, count: chi * 10 + lo, seen: true }),
                ..st
            },
        ));
    }
}

/// Parsing a rendered value reads it back as the pending value.
proof fn lemma_render_val(v: IMExValV, st: ParseSt, pos: int)
    requires
        digits_val(v),
        st.brace is None,
    ensures
        parse_chars(render_val(v), st, pos) == Ok::<ParseSt, ParseErrV>(
            ParseSt { stack: st.stack, cur: flush_pending(st), pending: Some(v), brace: None },
        ),
    decreases size_val(v), 0int,
{
    match v {
        IMExValV::Single(i) => {
            lemma_render_digit(i);
            reveal_with_fuel(parse_chars, 2);
            assert(render_val(v) =~= seq![render_digit(i)]);
            assert(render_val(v).drop_first() =~= Seq::<char>::empty());
            let st1 = ParseSt {
                stack: st.stack,
                cur: flush_pending(st),
                pending: Some(v),
                brace: None,
            };
            assert(parse_step(st, render_digit(i), pos) matches Ok(t) && t =~~= st1);
        },
        IMExValV::Group(e) => {
            let ra = render_atoms(e.atoms);
            assert(render_val(v) =~= seq!['('] + (ra + seq![')']));
            lemma_parse_chars_app(seq!['('], ra + seq![')'], st, pos);
            reveal_with_fuel(parse_chars, 2);
            assert(seq!['('].drop_first() =~= Seq::<char>::empty());
            let st1 = ParseSt {
                stack: st.stack.push(flush_pending(st)),
                cur: Seq::empty(),
                pending: None,
                brace: None,
            };
            assert(parse_step(st, '(', pos) matches Ok(t) && t =~~= st1);
            lemma_parse_chars_app(ra, seq![')'], st1, pos + 1);
            lemma_render_atoms(e.atoms, st1, pos + 1);
            let st2 = parse_chars(ra, st1, pos + 1)->Ok_0;
            assert(flush_pending(st2) =~= e.atoms);
            assert(seq![')'].drop_first() =~= Seq::<char>::empty());
            let st3 = ParseSt {
                stack: st.stack,
                cur: flush_pending(st),
                pending: Some(v),
                brace: None,
            };
            assert(st2.stack.drop_last() =~= st.stack);
            assert(st2.stack.last() == flush_pending(st));
            assert(IMExV { atoms: flush_pending(st2) } == e);
            assert(parse_step(st2, ')', pos + 1 + ra.len()) matches Ok(t) && t =~~= st3);
        },
    }
}

/// Parsing a rendered atom appends exactly that atom to the current level.
proof fn lemma_render_atom(a: QuantifiedIMExValV, st: ParseSt, pos: int)
    requires
        digits_val(a.val),
        st.brace is None,
    ensures
        parse_chars(render_val(a.val) + render_quant(a.quantifier), st, pos) matches Ok(st2)
            && st2.stack == st.stack && st2.brace is None && flush_pending(st2) == flush_pending(
            st,
        ).push(a),
    decreases size_val(a.val), 1int,
{
    lemma_parse_chars_app(render_val(a.val), render_quant(a.quantifier), st, pos);
    lemma_render_val(a.val, st, pos);
    let st1 = ParseSt {
        stack: st.stack,
        cur: flush_pending(st),
        pending: Some(a.val),
        brace: None,
    };
    let pos1 = pos + render_val(a.val).len();
    match a.quantifier {
        Quantifier::Finite(n) => {
            if n == 1 {
                assert(render_quant(a.quantifier) =~= Seq::<char>::empty());
                assert(flush_pending(st1) =~= flush_pending(st).push(a));
            } else {
                assert(render_quant(a.quantifier) =~= seq!['{'] + (render_count(n as nat)
                    + seq!['}']));
                lemma_parse_chars_app(
                    seq!['{'],
                    render_count(n as nat) + seq!['}'],
                    st1,
                    pos1,
                );
                reveal_with_fuel(parse_chars, 2);
                assert(seq!['{'].drop_first() =~= Seq::<char>::empty());
                let stb = ParseSt {
                    pending: None,
                    brace: Some(BraceV { target: a.val, count: 0, seen: false }),
                    ..st1
                };
                assert(parse_step(st1, '{', pos1) matches Ok(t) && t =~~= stb);
                lemma_parse_chars_app(
                    render_count(n as nat),
                    seq!['}'],
                    stb,
                    pos1 + 1,
                );
                lemma_parse_count(n as nat, a.val, false, stb, pos1 + 1);
                let stc = ParseSt {
                    brace: Some(BraceV { target: a.val, count: n as nat, seen: true }),
                    ..stb
                };
                assert(seq!['}'].drop_first() =~= Seq::<char>::empty());
                let std = ParseSt {
                    stack: st.stack,
                    cur: flush_pending(st).push(a),
                    pending: None,
                    brace: None,
                };
                assert(parse_step(stc, '}', pos1 + 1 + render_count(n as nat).len())
                    matches Ok(t) && t =~~= std);
                assert(flush_pending(std) =~= flush_pending(st).push(a));
            }
        },
        Quantifier::Infinite => {
            reveal_with_fuel(parse_chars, 2);
            assert(render_quant(a.quantifier) =~= seq!['*']);
            assert(seq!['*'].drop_first() =~= Seq::<char>::empty());
            let st2 = ParseSt {
                stack: st.stack,
                cur: flush_pending(st).push(a),
                pending: None,
                brace: None,
            };
            assert(parse_step(st1, '*', pos1) matches Ok(t) && t =~~= st2);
            assert(flush_pending(st2) =~= flush_pending(st).push(a));
        },
    }
}

/// Parsing a rendered run of atoms appends exactly those atoms.
proof fn lemma_render_atoms(s: Seq<QuantifiedIMExValV>, st: ParseSt, pos: int)
    requires
        digits_atoms(s),
        st.brace is None,
    ensures
        parse_chars(render_atoms(s), st, pos) matches Ok(st2) && st2.stack == st.stack
            && st2.brace is None && flush_pending(st2) == flush_pending(st) + s,
    decreases size_atoms(s), 2int,
{
    if s.len() == 0 {
        assert(render_atoms(s) =~= Seq::<char>::empty());
        assert(flush_pending(st) + s =~= flush_pending(st));
    } else {
        let head = render_val(s[0].val) + render_quant(s[0].quantifier);
        assert(render_atoms(s) =~= head + render_atoms(s.drop_first()));
        lemma_parse_chars_app(head, render_atoms(s.drop_first()), st, pos);
        lemma_render_atom(s[0], st, pos);
        let stA = parse_chars(head, st, pos)->Ok_0;
        lemma_render_atoms(s.drop_first(), stA, pos + head.len());
        let st2 = parse_chars(render_atoms(s.drop_first()), stA, pos + head.len())->Ok_0;
        assert(flush_pending(st2) =~= flush_pending(st) + s);
    }
}

/// Parsing the rendering of an expression gives the expression back: the
/// printed form of an expression (with single-digit source references, as
/// the pattern language requires) re-parses to a structurally equal one.
pub proof fn lemma_parse_render(e: IMExV)
    requires
        digits_imex(e),
    ensures
        parse_mx(render_imex(e)) == Ok::<IMExV, ParseErrV>(e),
{
    lemma_render_atoms(e.atoms, st_init(), 0);
    let st2 = parse_chars(render_imex(e), st_init(), 0)->Ok_0;
    assert(flush_pending(st2) =~= e.atoms);
    assert(parse_finish(st2, render_imex(e).len() as int) == Ok::<IMExV, ParseErrV>(
        IMExV { atoms: flush_pending(st2) },
    ));
    assert(IMExV { atoms: flush_pending(st2) } == e);
}

/// `digits_atoms`, element by element.
pub proof fn lemma_digits_atoms_index(s: Seq<QuantifiedIMExValV>)
    ensures
        digits_atoms(s) <==> (forall|i: int| 0 <= i < s.len() ==> digits_val(s[i].val)),
    decreases s.len(),
{
    if s.len() > 0 {
        lemma_digits_atoms_index(s.drop_first());
        if digits_atoms(s) {
            assert forall|i: int| 0 <= i < s.len() implies digits_val(s[i].val) by {
                if i > 0 {
                    assert(s.drop_first()[i - 1] == s[i]);
                    assert(digits_val(s.drop_first()[i - 1].val));
                }
            }
        }
        if forall|i: int| 0 <= i < s.len() ==> digits_val(s[i].val) {
            assert forall|i: int|
                0 <= i < s.drop_first().len() implies digits_val(
                s.drop_first()[i].val,
            ) by {
                assert(s.drop_first()[i] == s[i + 1]);
                assert(digits_val(s[i + 1].val));
            }
            assert(digits_val(s[0].val));
            assert(digits_atoms(s));
        }
    }
}

proof fn lemma_digits_atoms_push(s: Seq<QuantifiedIMExValV>, a: QuantifiedIMExValV)
    requires
        digits_atoms(s),
        digits_val(a.val),
    ensures
        digits_atoms(s.push(a)),
{
    lemma_digits_atoms_index(s);
    lemma_digits_atoms_index(s.push(a));
}

/// Every value a parser state holds has single-digit source references.
spec fn digits_st(st: ParseSt) -> bool {
    &&& forall|i: int| 0 <= i < st.stack.len() ==> #[trigger] digits_atoms(st.stack[i])
    &&& digits_atoms(st.cur)
    &&& (st.pending matches Some(v) ==> digits_val(v))
    &&& (st.brace matches Some(b) ==> digits_val(b.target))
}

proof fn lemma_digits_flush(st: ParseSt)
    requires
        digits_st(st),
    ensures
        digits_atoms(flush_pending(st)),
{
    match st.pending {
        None => {},
        Some(v) => lemma_digits_atoms_push(
            st.cur,
            QuantifiedIMExValV { val: v, quantifier: Quantifier::Finite(1) },
        ),
    }
}

proof fn lemma_step_digits(st: ParseSt, c: char, pos: int)
    requires
        digits_st(st),
        parse_step(st, c, pos) is Ok,
    ensures
        digits_st(parse_step(st, c, pos)->Ok_0),
{
    let st2 = parse_step(st, c, pos)->Ok_0;
    lemma_digits_flush(st);
    match st.brace {
        Some(b) => {
            if c == '}' {
                lemma_digits_atoms_push(
                    st.cur,
                    QuantifiedIMExValV {
                        val: b.target,
                        quantifier: Quantifier::Finite(b.count as usize),
                    },
                );
            }
        },
        None => {
            if is_digit(c) {
            } else if c == '(' {
            } else if c == ')' {
                assert(digits_atoms(st.stack[st.stack.len() - 1]));
            } else if c == '*' {
                match st.pending {
                    None => {},
                    Some(v) => lemma_digits_atoms_push(
                        st.cur,
                        QuantifiedIMExValV { val: v, quantifier: Quantifier::Infinite },
                    ),
                }
            }
        },
    }
}

proof fn lemma_chars_digits(s: Seq<char>, st: ParseSt, pos: int)
    requires
        digits_st(st),
        parse_chars(s, st, pos) is Ok,
    ensures
        digits_st(parse_chars(s, st, pos)->Ok_0),
    decreases s.len(),
{
    if s.len() > 0 {
        match parse_step(st, s[0], pos) {
            Err(_) => {},
            Ok(st2) => {
                lemma_step_digits(st, s[0], pos);
                lemma_chars_digits(s.drop_first(), st2, pos + 1);
            },
        }
    }
}

/// Whatever the parser accepts has single-digit source references.
pub proof fn lemma_parse_mx_digits(s: Seq<char>)
    ensures
        parse_mx(s) matches Ok(e) ==> digits_imex(e),
{
    if parse_mx(s) is Ok {
        lemma_chars_digits(s, st_init(), 0);
        let st2 = parse_chars(s, st_init(), 0)->Ok_0;
        lemma_digits_flush(st2);
    }
}

/// Re-parsing the printed form of any parsed expression gives back a
/// structurally equal expression.
pub proof fn lemma_reparse_printed(s: Seq<char>)
    ensures
        parse_mx(s) matches Ok(e) ==> parse_mx(render_imex(e)) == Ok::<IMExV, ParseErrV>(e),
{
    if parse_mx(s) is Ok {
        let e = parse_mx(s)->Ok_0;
        lemma_parse_mx_digits(s);
        lemma_parse_render(e);
    }
}

fn append_digit(out: &mut String, d: usize)
    requires
        d <= 9,
    ensures
        final(out)@ == old(out)@ + seq![render_digit(d as nat)],
{
    proof {
        reveal_strlit("0");
        reveal_strlit("1");
        reveal_strlit("2");
        reveal_strlit("3");
        reveal_strlit("4");
        reveal_strlit("5");
        reveal_strlit("6");
        reveal_strlit("7");
        reveal_strlit("8");
        reveal_strlit("9");
    }
    if d == 0 {
        out.append("0");
    } else if d == 1 {
        out.append("1");
    } else if d == 2 {
        out.append("2");
    } else if d == 3 {
        out.append("3");
    } else if d == 4 {
        out.append("4");
    } else if d == 5 {
        out.append("5");
    } else if d == 6 {
        out.append("6");
    } else if d == 7 {
        out.append("7");
    } else if d == 8 {
        out.append("8");
    } else {
        out.append("9");
    }
    proof {
        assert(final(out)@ =~= old(out)@ + seq![render_digit(d as nat)]);
    }
}

fn append_count(out: &mut String, n: usize)
    ensures
        final(out)@ == old(out)@ + render_count(n as nat),
    decreases n,
{
    if n < 10 {
        append_digit(out, n);
        proof {
            assert(final(out)@ =~= old(out)@ + render_count(n as nat));
        }
    } else {
        append_count(out, n / 10);
        append_digit(out, n % 10);
        proof {
            assert(render_count(n as nat) =~= render_count((n / 10) as nat).push(
                render_digit((n % 10) as nat),
            ));
            assert(final(out)@ =~= old(out)@ + render_count(n as nat));
        }
    }
}

fn append_quant(out: &mut String, q: &Quantifier)
    ensures
        final(out)@ == old(out)@ + render_quant(*q),
{
    proof {
        reveal_strlit("*");
        reveal_strlit("{");
        reveal_strlit("}");
    }
    match q {
        Quantifier::Infinite => {
            out.append("*");
            proof {
                assert(final(out)@ =~= old(out)@ + render_quant(*q));
            }
        },
        Quantifier::Finite(n) => {
            if *n == 1 {
                proof {
                    assert(final(out)@ =~= old(out)@ + render_quant(*q));
                }
            } else {
                out.append("{");
                append_count(out, *n);
                out.append("}");
                proof {
                    assert(final(out)@ =~= old(out)@ + render_quant(*q));
                }
            }
        },
    }
}

#[verifier::loop_isolation(false)]
fn append_atoms(out: &mut String, e: &IMEx)
    requires
        digits_imex(e@),
    ensures
        final(out)@ == old(out)@ + render_atoms(e@.atoms),
    decreases e,
{
    broadcast use vstd::seq::axiom_seq_index_decreases, vstd::std_specs::vec::axiom_vec_decreases_to_view;

    let ghost atoms = e@.atoms;
    proof {
        crate::expression::lemma_atoms_of(e.0@);
        lemma_digits_atoms_index(atoms);
        assert(atoms.skip(0) =~= atoms);
    }
    let n = e.0.len();
    let mut i: usize = 0;
    while i < n
        invariant
            i <= n,
            n == e.0@.len(),
            out@ + render_atoms(atoms.skip(i as int)) == old(out)@ + render_atoms(atoms),
        decreases n - i,
    {
        let a = &e.0[i];
        proof {
            assert(a@ == atoms[i as int]);
            assert(digits_val(atoms[i as int].val));
            assert(atoms.skip(i as int)[0] == atoms[i as int]);
            assert(atoms.skip(i as int).drop_first() =~= atoms.skip(i as int + 1));
        }
        let ghost pre = out@;
        append_val(out, &a.val);
        append_quant(out, &a.quantifier);
        proof {
            assert(render_atoms(atoms.skip(i as int)) =~= render_val(atoms[i as int].val)
                + render_quant(atoms[i as int].quantifier) + render_atoms(
                atoms.skip(i as int + 1),
            ));
            assert(out@ + render_atoms(atoms.skip(i as int + 1)) =~= pre + render_atoms(
                atoms.skip(i as int),
            ));
        }
        i = i + 1;
    }
    proof {
        assert(atoms.skip(n as int) =~= Seq::<QuantifiedIMExValV>::empty());
        assert(final(out)@ =~= old(out)@ + render_atoms(atoms));
    }
}

fn append_val(out: &mut String, v: &IMExVal)
    requires
        digits_val(v@),
    ensures
        final(out)@ == old(out)@ + render_val(v@),
    decreases v,
{
    proof {
        reveal_strlit("(");
        reveal_strlit(")");
    }
    match v {
        IMExVal::Single(i) => {
            append_digit(out, *i);
        },
        IMExVal::Group(e) => {
            out.append("(");
            append_atoms(out, e);
            out.append(")");
            proof {
                assert(final(out)@ =~= old(out)@ + render_val(v@));
            }
        },
    }
}

impl IMEx {
    /// The canonical pattern text of this expression: exactly
    /// [`render_imex`] of its model, which re-parses to a structurally
    /// equal expression ([`lemma_parse_render`]).
    pub fn to_pattern_string(&self) -> (r: String)
        requires
            digits_imex(self@),
        ensures
            r@ == render_imex(self@),
    {
        let mut out = String::new();
        append_atoms(&mut out, self);
        out
    }
}

/// How many decimal digits the rendering of a count has, as a power bound.
spec fn digits_len(n: nat) -> nat
    decreases n,
{
    if n < 10 {
        1
    } else {
        digits_len(n / 10) + 1
    }
}

spec fn pow10(k: nat) -> nat
    decreases k,
{
    if k == 0 {
        1
    } else {
        10 * pow10((k - 1) as nat)
    }
}

} // verus!
