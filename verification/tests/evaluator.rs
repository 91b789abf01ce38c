use imex::eval::ExprEval;
use imex::{
    AtomEval, IMEx, IMExIterCounter, IMExIterator, IMExVal, Quantifier, Sources,
};

fn chars(s: &str) -> Vec<char> {
    s.chars().collect()
}

#[test]
fn quantifier_three_quantifier_iterates_thrice() {
    let mut r = Quantifier::Finite(3);
    assert_eq!(r.next(), Some(()));
    assert_eq!(r, Quantifier::Finite(2));
    assert_eq!(r.next(), Some(()));
    assert_eq!(r, Quantifier::Finite(1));
    assert_eq!(r.next(), Some(()));
    assert_eq!(r, Quantifier::Finite(0));
    assert_eq!(r.next(), None);
}

#[test]
fn quantifier_zero_quantifier_gives_immediate_none() {
    let mut r = Quantifier::Finite(0);
    assert_eq!(r.next(), None);
}

#[test]
fn quantifier_infinite_quantifier_iterates_a_lot() {
    let mut r = Quantifier::Infinite;
    for _ in 0..100 {
        assert_eq!(r.next(), Some(()));
    }
}

#[test]
fn single_iterates_once() {
    let mut val = AtomEval::new(IMExVal::Single(1), Quantifier::Finite(1));
    let mut iters = Sources::new(vec![chars("123"), chars("abc")]);

    assert_eq!(val.iterate(&mut iters, false), Some(Ok('a')));
    assert_eq!(val.iterate(&mut iters, false), None);
}

#[test]
fn group_iterates_over_imex() {
    let mut val = AtomEval::new(
        IMExVal::Group(IMEx::from("01*").unwrap()),
        Quantifier::Finite(1),
    );
    let mut iters = Sources::new(vec![chars("123"), chars("abc")]);

    assert_eq!(val.iterate(&mut iters, false), Some(Ok('1')));
    assert_eq!(val.iterate(&mut iters, false), Some(Ok('a')));
    assert_eq!(val.iterate(&mut iters, false), Some(Ok('b')));
    assert_eq!(val.iterate(&mut iters, false), Some(Ok('c')));
    assert_eq!(val.iterate(&mut iters, false), None);
}

#[test]
fn iterating_new_qimex_val_with_zero_quantifier_gives_none() {
    let mut qimex_val = AtomEval::new(IMExVal::Single(1), Quantifier::Finite(0));
    let mut iters = Sources::new(vec![chars("123"), chars("abc")]);

    assert_eq!(qimex_val.iterate(&mut iters, false), None);
}

#[test]
fn iterating_qimex_val_with_three_quantifier_repeats_thrice() {
    let mut qimex_val = AtomEval::new(IMExVal::Single(1), Quantifier::Finite(3));
    let mut iters = Sources::new(vec![chars("123"), chars("abcde")]);

    assert_eq!(qimex_val.iterate(&mut iters, false), Some(Ok('a')));
    assert_eq!(qimex_val.iterate(&mut iters, false), Some(Ok('b')));
    assert_eq!(qimex_val.iterate(&mut iters, false), Some(Ok('c')));
    assert_eq!(qimex_val.iterate(&mut iters, false), None);
}

#[test]
fn exhausting_imex_val_before_repeats_copmlete_gives_none() {
    let mut qimex_val = AtomEval::new(IMExVal::Single(1), Quantifier::Finite(5));
    let mut iters = Sources::new(vec![chars("123"), chars("abc")]);

    assert_eq!(qimex_val.iterate(&mut iters, false), Some(Ok('a')));
    assert_eq!(qimex_val.iterate(&mut iters, false), Some(Ok('b')));
    assert_eq!(qimex_val.iterate(&mut iters, false), Some(Ok('c')));
    assert_eq!(qimex_val.iterate(&mut iters, false), None);
}

#[test]
fn group_imex_val_completes_inner_iteration_first() {
    let mut qimex_val = AtomEval::new(
        IMExVal::Group(IMEx::from("01*").unwrap()),
        Quantifier::Finite(2),
    );
    let mut iters = Sources::new(vec![chars("123"), chars("abc")]);

    assert_eq!(qimex_val.iterate(&mut iters, false), Some(Ok('1')));
    assert_eq!(qimex_val.iterate(&mut iters, false), Some(Ok('a')));
    assert_eq!(qimex_val.iterate(&mut iters, false), Some(Ok('b')));
    assert_eq!(qimex_val.iterate(&mut iters, false), Some(Ok('c')));
    assert_eq!(qimex_val.iterate(&mut iters, false), Some(Ok('2')));
    assert_eq!(qimex_val.iterate(&mut iters, false), None);
}

#[test]
fn iter_counter_counts_iterations() {
    let mut iter_counter = IMExIterCounter::new(ExprEval::new(IMEx::from("0*").unwrap()));
    let mut iters = Sources::new(vec![chars("123")]);

    assert_eq!(iter_counter.count(), 0);

    iter_counter.iterate(&mut iters, false);
    assert_eq!(iter_counter.count(), 1);

    iter_counter.iterate(&mut iters, false);
    assert_eq!(iter_counter.count(), 2);

    iter_counter.iterate(&mut iters, false);
    assert_eq!(iter_counter.count(), 3);

    iter_counter.iterate(&mut iters, false);
    assert_eq!(iter_counter.count(), 3);
}

#[test]
fn iter_counter_wont_count_past_zero_on_empty_imex() {
    let mut iter_counter = IMExIterCounter::new(ExprEval::new(IMEx::from("").unwrap()));
    let mut iters = Sources::new(vec![chars("123")]);

    assert_eq!(iter_counter.count(), 0);

    iter_counter.iterate(&mut iters, false);
    assert_eq!(iter_counter.count(), 0);

    iter_counter.iterate(&mut iters, false);
    assert_eq!(iter_counter.count(), 0);
}

#[test]
fn three_quantifier_iterates_thrice() {
    let mut r = Quantifier::Finite(3);
    assert_eq!(r.next(), Some(()));
    assert_eq!(r, Quantifier::Finite(2));
    assert_eq!(r.next(), Some(()));
    assert_eq!(r, Quantifier::Finite(1));
    assert_eq!(r.next(), Some(()));
    assert_eq!(r, Quantifier::Finite(0));
    assert_eq!(r.next(), None);
}

#[test]
fn zero_quantifier_gives_immediate_none() {
    let mut r = Quantifier::Finite(0);
    assert_eq!(r.next(), None);
}

#[test]
fn infinite_quantifier_iterates_a_lot() {
    let mut r = Quantifier::Infinite;
    for _ in 0..100 {
        assert_eq!(r.next(), Some(()));
    }
}
