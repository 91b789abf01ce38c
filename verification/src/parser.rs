//! Parsing pattern text into an [`IMEx`].
//!
//! The grammar, over single characters:
//!
//! ```text
//! expression := atom*
//! atom       := value quantifier
//! value      := digit | '(' expression ')'
//! quantifier := '*' | '{' digits '}' | nothing        (nothing means {1})
//! ```
//!
//! The ghost function [`parse_mx`] is the reference parser: a state machine
//! that reads one character at a time, keeping the finished atoms of every
//! open group on a stack, the last value while it may yet be quantified,
//! and the digits of an open `{…}`. The executable [`IMEx::from`] returns
//! exactly what `parse_mx` says, error and position included.

use vstd::prelude::*;

use crate::expression::{atoms_of, lemma_atoms_of_push, IMEx, IMExV, IMExVal, IMExValV, QuantifiedIMExVal, QuantifiedIMExValV};
use crate::quantifier::Quantifier;
use vstd::string::StrSliceExecFns;

verus! {

/// Why pattern text was rejected.
#[derive(PartialEq, Eq, Debug, Clone, Copy)]
pub enum SyntaxErrorKind {
    /// A character outside the pattern alphabet stands outside `{…}`.
    BadChar(char),
    /// A character other than a digit or `}` stands inside `{…}`.
    NonDigitInBrace(char),
    /// A `*` or `{` with no value in front of it to quantify.
    QuantifierWithoutTarget(char),
    /// A `}` immediately after `{`.
    EmptyBrace,
    /// A repeat count too large to hold.
    CountOverflow,
    /// A `)` with no open `(`.
    UnmatchedClose,
    /// The pattern ended while a `(` was still open.
    UnmatchedOpen,
    /// The pattern ended inside `{…}`.
    UnterminatedBrace,
}

/// A rejected pattern: what was wrong, and the character index at which it
/// became apparent (the pattern's length for end-of-input errors).
#[derive(PartialEq, Eq, Debug, Clone, Copy)]
pub struct SyntaxError {
    pub kind: SyntaxErrorKind,
    pub pos: usize,
}

/// Ghost counterpart of [`SyntaxError`].
pub struct ParseErrV {
    pub kind: SyntaxErrorKind,
    pub pos: int,
}

/// Ghost state of an open `{…}`: the value it will quantify, the count read
/// so far, and whether at least one digit has been read.
#[verifier::ext_equal]
pub struct BraceV {
    pub target: IMExValV,
    pub count: nat,
    pub seen: bool,
}

/// Ghost state of the parser between two characters.
#[verifier::ext_equal]
pub struct ParseSt {
    /// For each enclosing open `(`, the atoms finished before it opened.
    pub stack: Seq<Seq<QuantifiedIMExValV>>,
    /// The atoms finished at the current nesting level.
    pub cur: Seq<QuantifiedIMExValV>,
    /// The last value read, while a quantifier may still follow it.
    pub pending: Option<IMExValV>,
    /// The open `{…}`, if the parser stands inside one.
    pub brace: Option<BraceV>,
}

pub open spec fn is_digit(c: char) -> bool {
    '0' as int <= c as int <= '9' as int
}

pub open spec fn digit_val(c: char) -> nat {
    (c as int - '0' as int) as nat
}

pub open spec fn st_init() -> ParseSt {
    ParseSt { stack: Seq::empty(), cur: Seq::empty(), pending: None, brace: None }
}

/// The current level's atoms once no quantifier can reach `pending` any
/// more: a still-pending value gets the default quantifier `{1}`.
pub open spec fn flush_pending(st: ParseSt) -> Seq<QuantifiedIMExValV> {
    match st.pending {
        None => st.cur,
        Some(v) => st.cur.push(
            QuantifiedIMExValV { val: v, quantifier: Quantifier::Finite(1) },
        ),
    }
}

/// One character of parsing.
pub open spec fn parse_step(st: ParseSt, c: char, pos: int) -> Result<ParseSt, ParseErrV> {
    match st.brace {
        Some(b) => {
            if c == '}' {
                if !b.seen {
                    Err(ParseErrV { kind: SyntaxErrorKind::EmptyBrace, pos })
                } else {
                    Ok(ParseSt {
                        cur: st.cur.push(
                            QuantifiedIMExValV {
                                val: b.target,
                                quantifier: Quantifier::Finite(b.count as usize),
                            },
                        ),
                        pending: None,
                        brace: None,
                        ..st
                    })
                }
            } else if is_digit(c) {
                if b.count * 10 + digit_val(c) > usize::MAX {
                    Err(ParseErrV { kind: SyntaxErrorKind::CountOverflow, pos })
                } else {
                    Ok(ParseSt {
                        brace: Some(
                            BraceV { count: b.count * 10 + digit_val(c), seen: true, ..b },
                        ),
                        ..st
                    })
                }
            } else {
                Err(ParseErrV { kind: SyntaxErrorKind::NonDigitInBrace(c), pos })
            }
        },
        None => {
            if is_digit(c) {
                Ok(ParseSt {
                    cur: flush_pending(st),
                    pending: Some(IMExValV::Single(digit_val(c))),
                    ..st
                })
            } else if c == '(' {
                Ok(ParseSt {
                    stack: st.stack.push(flush_pending(st)),
                    cur: Seq::empty(),
                    pending: None,
                    ..st
                })
            } else if c == ')' {
                if st.stack.len() == 0 {
                    Err(ParseErrV { kind: SyntaxErrorKind::UnmatchedClose, pos })
                } else {
                    Ok(ParseSt {
                        stack: st.stack.drop_last(),
                        cur: st.stack.last(),
                        pending: Some(IMExValV::Group(IMExV { atoms: flush_pending(st) })),
                        ..st
                    })
                }
            } else if c == '*' {
                match st.pending {
                    None => Err(
                        ParseErrV { kind: SyntaxErrorKind::QuantifierWithoutTarget(c), pos },
                    ),
                    Some(v) => Ok(ParseSt {
                        cur: st.cur.push(
                            QuantifiedIMExValV { val: v, quantifier: Quantifier::Infinite },
                        ),
                        pending: None,
                        ..st
                    }),
                }
            } else if c == '{' {
                match st.pending {
                    None => Err(
                        ParseErrV { kind: SyntaxErrorKind::QuantifierWithoutTarget(c), pos },
                    ),
                    Some(v) => Ok(ParseSt {
                        pending: None,
                        brace: Some(BraceV { target: v, count: 0, seen: false }),
                        ..st
                    }),
                }
            } else {
                Err(ParseErrV { kind: SyntaxErrorKind::BadChar(c), pos })
            }
        },
    }
}

/// Parsing a run of characters, the first standing at index `pos`.
pub open spec fn parse_chars(s: Seq<char>, st: ParseSt, pos: int) -> Result<ParseSt, ParseErrV>
    decreases s.len(),
{
    if s.len() == 0 {
        Ok(st)
    } else {
        match parse_step(st, s[0], pos) {
            Err(e) => Err(e),
            Ok(st2) => parse_chars(s.drop_first(), st2, pos + 1),
        }
    }
}

/// End of input: everything opened must have been closed.
pub open spec fn parse_finish(st: ParseSt, pos: int) -> Result<IMExV, ParseErrV> {
    if st.brace is Some {
        Err(ParseErrV { kind: SyntaxErrorKind::UnterminatedBrace, pos })
    } else if st.stack.len() > 0 {
        Err(ParseErrV { kind: SyntaxErrorKind::UnmatchedOpen, pos })
    } else {
        Ok(IMExV { atoms: flush_pending(st) })
    }
}

/// The reference parser: what any pattern text means, or why it is
/// rejected.
pub open spec fn parse_mx(s: Seq<char>) -> Result<IMExV, ParseErrV> {
    match parse_chars(s, st_init(), 0) {
        Err(e) => Err(e),
        Ok(st) => parse_finish(st, s.len() as int),
    }
}

/// Characters are consumed one at a time: parsing `s.push(c)` is parsing
/// `s` and then stepping over `c`.
pub proof fn lemma_parse_chars_snoc(s: Seq<char>, c: char, st: ParseSt, pos: int)
    ensures
        parse_chars(s.push(c), st, pos) == (match parse_chars(s, st, pos) {
            Err(e) => Err::<ParseSt, ParseErrV>(e),
            Ok(st2) => parse_step(st2, c, pos + s.len()),
        }),
    decreases s.len(),
{
    if s.len() == 0 {
        reveal_with_fuel(parse_chars, 2);
        assert(s.push(c)[0] == c);
        assert(s.push(c).drop_first() =~= Seq::<char>::empty());
    } else {
        assert(s.push(c)[0] == s[0]);
        assert(s.push(c).drop_first() =~= s.drop_first().push(c));
        match parse_step(st, s[0], pos) {
            Err(_) => {},
            Ok(st2) => lemma_parse_chars_snoc(s.drop_first(), c, st2, pos + 1),
        }
    }
}

/// Runs of characters are parsed one after the other.
pub proof fn lemma_parse_chars_app(s1: Seq<char>, s2: Seq<char>, st: ParseSt, pos: int)
    ensures
        parse_chars(s1 + s2, st, pos) == (match parse_chars(s1, st, pos) {
            Err(e) => Err::<ParseSt, ParseErrV>(e),
            Ok(st2) => parse_chars(s2, st2, pos + s1.len()),
        }),
    decreases s1.len(),
{
    if s1.len() == 0 {
        assert(s1 + s2 =~= s2);
    } else {
        assert((s1 + s2)[0] == s1[0]);
        assert((s1 + s2).len() > 0);
        assert((s1 + s2).drop_first() =~= s1.drop_first() + s2);
        match parse_step(st, s1[0], pos) {
            Err(_) => {},
            Ok(st2) => lemma_parse_chars_app(s1.drop_first(), s2, st2, pos + 1),
        }
    }
}

/// A rejected prefix rejects the whole text, with the same error.
pub proof fn lemma_parse_chars_err_prefix(s: Seq<char>, k: int, st: ParseSt, pos: int)
    requires
        0 <= k <= s.len(),
        parse_chars(s.take(k), st, pos) is Err,
    ensures
        parse_chars(s, st, pos) == parse_chars(s.take(k), st, pos),
    decreases k,
{
    assert(s.take(k)[0] == s[0]);
    match parse_step(st, s[0], pos) {
        Err(_) => {},
        Ok(st2) => {
            assert(s.take(k).drop_first() =~= s.drop_first().take(k - 1));
            lemma_parse_chars_err_prefix(s.drop_first(), k - 1, st2, pos + 1);
        },
    }
}

/// Exec state of an open `{…}`; see [`BraceV`].
struct BraceState {
    target: IMExVal,
    count: usize,
    seen: bool,
}

spec fn pending_view(p: Option<IMExVal>) -> Option<IMExValV> {
    match p {
        None => None,
        Some(v) => Some(v@),
    }
}

spec fn brace_view(b: Option<BraceState>) -> Option<BraceV> {
    match b {
        None => None,
        Some(bs) => Some(BraceV { target: bs.target@, count: bs.count as nat, seen: bs.seen }),
    }
}

spec fn stack_view(st: Seq<Vec<QuantifiedIMExVal>>) -> Seq<Seq<QuantifiedIMExValV>> {
    Seq::new(st.len(), |i: int| atoms_of(st[i]@))
}

/// The atoms of the current level with a still-pending value flushed at the
/// default quantifier `{1}`.
fn flushed(cur: Vec<QuantifiedIMExVal>, pending: Option<IMExVal>) -> (r: Vec<QuantifiedIMExVal>)
    ensures
        atoms_of(r@) == (match pending {
            None => atoms_of(cur@),
            Some(v) => atoms_of(cur@).push(
                QuantifiedIMExValV { val: v@, quantifier: Quantifier::Finite(1) },
            ),
        }),
{
    let mut cur = cur;
    match pending {
        None => {},
        Some(v) => {
            let ghost pre = cur@;
            cur.push(QuantifiedIMExVal { val: v, quantifier: Quantifier::Finite(1) });
            proof {
                lemma_atoms_of_push(
                    pre,
                    QuantifiedIMExVal { val: v, quantifier: Quantifier::Finite(1) },
                );
            }
        },
    }
    cur
}

impl IMEx {
    /// Parses pattern text into an [`IMEx`], or says why it is rejected:
    /// exactly what the reference parser [`parse_mx`] says, error position
    /// included.
    pub fn from(imex: &str) -> (r: Result<IMEx, SyntaxError>)
        ensures
            r is Ok ==> parse_mx(imex@) == Ok::<IMExV, ParseErrV>(r->Ok_0@),
            r is Err ==> parse_mx(imex@) == Err::<IMExV, ParseErrV>(
                ParseErrV { kind: r->Err_0.kind, pos: r->Err_0.pos as int },
            ),
    {
        let n = imex.unicode_len();
        let mut stack: Vec<Vec<QuantifiedIMExVal>> = Vec::new();
        let mut cur: Vec<QuantifiedIMExVal> = Vec::new();
        let mut pending: Option<IMExVal> = None;
        let mut brace: Option<BraceState> = None;
        let mut pos: usize = 0;
        proof {
            assert(imex@.take(0) =~= Seq::<char>::empty());
            assert(stack_view(stack@) =~= Seq::<Seq<QuantifiedIMExValV>>::empty());
            assert(atoms_of(cur@) =~= Seq::<QuantifiedIMExValV>::empty());
        }
        while pos < n
            invariant
                n == imex@.len(),
                pos <= n,
                parse_chars(imex@.take(pos as int), st_init(), 0) == Ok::<ParseSt, ParseErrV>(ParseSt {
                    stack: stack_view(stack@),
                    cur: atoms_of(cur@),
                    pending: pending_view(pending),
                    brace: brace_view(brace),
                }),
            decreases n - pos,
        {
            let ghost st = ParseSt {
                stack: stack_view(stack@),
                cur: atoms_of(cur@),
                pending: pending_view(pending),
                brace: brace_view(brace),
            };
            let c = imex.get_char(pos);
            proof {
                lemma_parse_chars_snoc(imex@.take(pos as int), c, st_init(), 0);
                assert(imex@.take(pos as int + 1) =~= imex@.take(pos as int).push(c));
                assert(parse_chars(imex@.take(pos as int + 1), st_init(), 0) == parse_step(
                    st,
                    c,
                    pos as int,
                ));
            }
            let u = c as u32;
            match brace {
                Some(b) => {
                    if c == '}' {
                        if !b.seen {
                            proof {
                                lemma_parse_chars_err_prefix(imex@, pos as int + 1, st_init(), 0);
                            }
                            return Err(
                                SyntaxError { kind: SyntaxErrorKind::EmptyBrace, pos },
                            );
                        }
                        let ghost pre = cur@;
                        let atom = QuantifiedIMExVal {
                            val: b.target,
                            quantifier: Quantifier::Finite(b.count),
                        };
                        cur.push(atom);
                        pending = None;
                        brace = None;
                        proof {
                            lemma_atoms_of_push(pre, atom);
                        }
                    } else if u >= 48 && u <= 57 {
                        let d = (u - 48) as usize;
                        if b.count > (usize::MAX - d) / 10 {
                            proof {
                                lemma_div_mul_bound(b.count as int, d as int);
                                lemma_parse_chars_err_prefix(imex@, pos as int + 1, st_init(), 0);
                            }
                            return Err(
                                SyntaxError { kind: SyntaxErrorKind::CountOverflow, pos },
                            );
                        }
                        proof {
                            lemma_div_mul_bound(b.count as int, d as int);
                        }
                        brace = Some(
                            BraceState { target: b.target, count: b.count * 10 + d, seen: true },
                        );
                    } else {
                        proof {
                            lemma_parse_chars_err_prefix(imex@, pos as int + 1, st_init(), 0);
                        }
                        return Err(
                            SyntaxError { kind: SyntaxErrorKind::NonDigitInBrace(c), pos },
                        );
                    }
                },
                None => {
                    brace = None;
                    if u >= 48 && u <= 57 {
                        let d = (u - 48) as usize;
                        cur = flushed(cur, pending);
                        pending = Some(IMExVal::Single(d));
                    } else if c == '(' {
                        cur = flushed(cur, pending);
                        pending = None;
                        let ghost prestack = stack@;
                        stack.push(cur);
                        cur = Vec::new();
                        proof {
                            assert(stack_view(stack@) =~= stack_view(prestack).push(
                                atoms_of(stack@.last()@),
                            ));
                            assert(atoms_of(cur@) =~= Seq::<QuantifiedIMExValV>::empty());
                        }
                    } else if c == ')' {
                        let ghost prestack = stack@;
                        match stack.pop() {
                            None => {
                                proof {
                                    lemma_parse_chars_err_prefix(imex@, pos as int + 1, st_init(), 0);
                                }
                                return Err(
                                    SyntaxError { kind: SyntaxErrorKind::UnmatchedClose, pos },
                                );
                            },
                            Some(outer) => {
                                cur = flushed(cur, pending);
                                let group = IMEx(cur);
                                cur = outer;
                                proof {
                                    assert(group@ == IMExV { atoms: flush_pending(st) });
                                }
                                pending = Some(IMExVal::Group(group));
                                proof {
                                    assert(stack_view(stack@) =~= stack_view(
                                        prestack,
                                    ).drop_last());
                                    assert(atoms_of(cur@) == stack_view(prestack).last());
                                }
                            },
                        }
                    } else if c == '*' {
                        match pending {
                            None => {
                                proof {
                                    lemma_parse_chars_err_prefix(imex@, pos as int + 1, st_init(), 0);
                                }
                                return Err(
                                    SyntaxError {
                                        kind: SyntaxErrorKind::QuantifierWithoutTarget(c),
                                        pos,
                                    },
                                );
                            },
                            Some(v) => {
                                let ghost pre = cur@;
                                let atom = QuantifiedIMExVal {
                                    val: v,
                                    quantifier: Quantifier::Infinite,
                                };
                                cur.push(atom);
                                pending = None;
                                proof {
                                    lemma_atoms_of_push(pre, atom);
                                }
                            },
                        }
                    } else if c == '{' {
                        match pending {
                            None => {
                                proof {
                                    lemma_parse_chars_err_prefix(imex@, pos as int + 1, st_init(), 0);
                                }
                                return Err(
                                    SyntaxError {
                                        kind: SyntaxErrorKind::QuantifierWithoutTarget(c),
                                        pos,
                                    },
                                );
                            },
                            Some(v) => {
                                pending = None;
                                brace = Some(BraceState { target: v, count: 0, seen: false });
                            },
                        }
                    } else {
                        proof {
                            lemma_parse_chars_err_prefix(imex@, pos as int + 1, st_init(), 0);
                        }
                        return Err(SyntaxError { kind: SyntaxErrorKind::BadChar(c), pos });
                    }
                },
            }
            proof {
                let st2 = ParseSt {
                    stack: stack_view(stack@),
                    cur: atoms_of(cur@),
                    pending: pending_view(pending),
                    brace: brace_view(brace),
                };
                assert(parse_step(st, c, pos as int) matches Ok(t) && t =~~= st2);
            }
            pos = pos + 1;
        }
        let ghost st = ParseSt {
            stack: stack_view(stack@),
            cur: atoms_of(cur@),
            pending: pending_view(pending),
            brace: brace_view(brace),
        };
        proof {
            assert(imex@.take(n as int) =~= imex@);
        }
        if brace.is_some() {
            return Err(SyntaxError { kind: SyntaxErrorKind::UnterminatedBrace, pos: n });
        }
        if stack.len() > 0 {
            return Err(SyntaxError { kind: SyntaxErrorKind::UnmatchedOpen, pos: n });
        }
        cur = flushed(cur, pending);
        let e = IMEx(cur);
        proof {
            assert(e@ == IMExV { atoms: flush_pending(st) });
            assert(parse_mx(imex@) == Ok::<IMExV, ParseErrV>(e@));
        }
        Ok(e)
    }
}

/// The overflow test the parser runs before taking in one more digit:
/// `q > (m - d) / 10` exactly when `q * 10 + d` would pass `m`.
proof fn lemma_div_mul_bound(q: int, d: int)
    requires
        0 <= q,
        0 <= d <= 9,
    ensures
        q > (usize::MAX - d) / 10 <==> q * 10 + d > usize::MAX,
{
    let m = usize::MAX as int;
    let k = (m - d) / 10;
    assert((m - d) == 10 * k + (m - d) % 10) by {
        vstd::arithmetic::div_mod::lemma_fundamental_div_mod(m - d, 10);
    }
    assert(q > k ==> q * 10 >= (k + 1) * 10) by (nonlinear_arith);
    assert(q <= k ==> q * 10 <= k * 10) by (nonlinear_arith);
}

} // verus!
