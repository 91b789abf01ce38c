use imex::pastex::{Pastex, PastexVal, QuantifiedPastexVal};
use imex::pattern::{Pattern, PatternData};
use imex::repeater::Repeater;
use imex::zprex::{QuantifiedZprVal, ZprVal, Zprex};
use imex::{IMEx, IMExVal, QuantifiedIMExVal, Quantifier};

fn single(i: usize, q: Quantifier) -> QuantifiedIMExVal {
    QuantifiedIMExVal { val: IMExVal::Single(i), quantifier: q }
}

fn group(e: IMEx, q: Quantifier) -> QuantifiedIMExVal {
    QuantifiedIMExVal { val: IMExVal::Group(e), quantifier: q }
}

fn expected_repeats() -> IMEx {
    IMEx(vec![
        single(1, Quantifier::Finite(1)),
        single(3, Quantifier::Finite(3)),
        single(9, Quantifier::Infinite),
        single(1, Quantifier::Finite(1)),
    ])
}

fn expected_parens() -> IMEx {
    IMEx(vec![
        single(1, Quantifier::Finite(1)),
        group(IMEx(vec![single(1, Quantifier::Finite(1))]), Quantifier::Finite(1)),
        group(IMEx(vec![single(9, Quantifier::Finite(1))]), Quantifier::Infinite),
        group(IMEx(vec![single(4, Quantifier::Finite(1))]), Quantifier::Finite(4)),
        group(
            IMEx(vec![
                single(1, Quantifier::Finite(1)),
                group(IMEx(vec![single(1, Quantifier::Finite(1))]), Quantifier::Finite(1)),
            ]),
            Quantifier::Finite(1),
        ),
        group(IMEx(vec![]), Quantifier::Finite(1)),
    ])
}

#[test]
fn expression_empty_string_gives_empty_group_imex() {
    let i = IMEx::from("").unwrap();
    assert_eq!(i, IMEx(vec![]));
}

#[test]
fn expression_repeats_gives_repeating_imex() {
    let i = IMEx::from("13{3}9*1").unwrap();
    assert_eq!(i, expected_repeats());
}

#[test]
fn expression_parens_gives_group_imex() {
    let i = IMEx::from("1(1)(9)*(4){4}(1(1))()").unwrap();
    assert_eq!(i, expected_parens());
}

#[test]
fn expression_bad_chars_fails() {
    IMEx::from("0O0").unwrap_err();
    IMEx::from("^[0]+$").unwrap_err();
    IMEx::from("123*4{5}(x)*").unwrap_err();
}

#[test]
fn expression_too_many_closed_parens_fails() {
    IMEx::from("0(1)2)3(4)5").unwrap_err();
    IMEx::from("0{1}2}3{4}5").unwrap_err();
    IMEx::from("0(1)2(3))").unwrap_err();
}

#[test]
fn expression_too_many_open_parens_fails() {
    IMEx::from("0(1)2(3(4)5").unwrap_err();
    IMEx::from("0{1}2{3{4}5").unwrap_err();
    IMEx::from("0{1}23{4}5{6").unwrap_err();
    IMEx::from("((0)1(2)3").unwrap_err();
}

#[test]
fn expression_mismatched_parens_fails() {
    IMEx::from(")(").unwrap_err();
    IMEx::from("(3{)}").unwrap_err();
}

#[test]
fn expression_bad_repeat_targets_fails() {
    IMEx::from("(*4)").unwrap_err();
    IMEx::from("({6}6)").unwrap_err();
    IMEx::from("*2").unwrap_err();
    IMEx::from("{4}4").unwrap_err();
    IMEx::from("5{*5}").unwrap_err();
}

#[test]
fn expression_bad_repeat_bracket_contents_fails() {
    IMEx::from("5{5*}").unwrap_err();
    IMEx::from("6{(6)}").unwrap_err();
    IMEx::from("7{7{7}}").unwrap_err();
}

#[test]
fn imex_empty_string_gives_empty_group_imex() {
    let i = IMEx::from("").unwrap();
    assert_eq!(i, IMEx(vec![]));
}

#[test]
fn imex_repeats_gives_repeating_imex() {
    let i = IMEx::from("13{3}9*1").unwrap();
    assert_eq!(i, expected_repeats());
}

#[test]
fn imex_parens_gives_group_imex() {
    let i = IMEx::from("1(1)(9)*(4){4}(1(1))()").unwrap();
    assert_eq!(i, expected_parens());
}

#[test]
fn imex_bad_chars_fails() {
    IMEx::from("0O0").unwrap_err();
    IMEx::from("^[0]+$").unwrap_err();
    IMEx::from("123*4{5}(x)*").unwrap_err();
}

#[test]
fn imex_too_many_closed_parens_fails() {
    IMEx::from("0(1)2)3(4)5").unwrap_err();
    IMEx::from("0{1}2}3{4}5").unwrap_err();
    IMEx::from("0(1)2(3))").unwrap_err();
}

#[test]
fn imex_too_many_open_parens_fails() {
    IMEx::from("0(1)2(3(4)5").unwrap_err();
    IMEx::from("0{1}2{3{4}5").unwrap_err();
    IMEx::from("0{1}23{4}5{6").unwrap_err();
    IMEx::from("((0)1(2)3").unwrap_err();
}

#[test]
fn imex_mismatched_parens_fails() {
    IMEx::from("(3{)}").unwrap_err();
}

#[test]
fn imex_bad_repeat_targets_fails() {
    IMEx::from("(*4)").unwrap_err();
    IMEx::from("({6}6)").unwrap_err();
    IMEx::from("{4}4").unwrap_err();
    IMEx::from("5{*5}").unwrap_err();
}

#[test]
fn imex_bad_repeat_bracket_contents_fails() {
    IMEx::from("5{5*}").unwrap_err();
    IMEx::from("6{(6)}").unwrap_err();
    IMEx::from("7{7{7}}").unwrap_err();
}

#[test]
fn empty_string_gives_empty_group_pastex() {
    let p = Pastex::from("").unwrap();
    let empty: Pastex = IMEx(vec![]);
    assert_eq!(p, empty);
}

#[test]
fn repeats_gives_repeating_pastex() {
    let p = Pastex::from("13{3}9*1").unwrap();
    let expected: Pastex = IMEx(vec![
        QuantifiedPastexVal { val: PastexVal::Single(1), quantifier: Quantifier::Finite(1) },
        QuantifiedPastexVal { val: PastexVal::Single(3), quantifier: Quantifier::Finite(3) },
        QuantifiedPastexVal { val: PastexVal::Single(9), quantifier: Quantifier::Infinite },
        QuantifiedPastexVal { val: PastexVal::Single(1), quantifier: Quantifier::Finite(1) },
    ]);
    assert_eq!(p, expected);
}

#[test]
fn parens_gives_group_pastex() {
    let p = Pastex::from("1(1)(9)*(4){4}(1(1))()").unwrap();
    assert_eq!(p, expected_parens());
}

#[test]
fn pastex_bad_chars_fails() {
    Pastex::from("0O0").unwrap_err();
    Pastex::from("^[0]+$").unwrap_err();
    Pastex::from("123*4{5}(x)*").unwrap_err();
}

#[test]
fn pastex_too_many_closed_parens_fails() {
    Pastex::from("0(1)2)3(4)5").unwrap_err();
    Pastex::from("0{1}2}3{4}5").unwrap_err();
    Pastex::from("0(1)2(3))").unwrap_err();
}

#[test]
fn pastex_too_many_open_parens_fails() {
    Pastex::from("0(1)2(3(4)5").unwrap_err();
    Pastex::from("0{1}2{3{4}5").unwrap_err();
    Pastex::from("0{1}23{4}5{6").unwrap_err();
    Pastex::from("((0)1(2)3").unwrap_err();
}

#[test]
fn pastex_mismatched_parens_fails() {
    Pastex::from(")(").unwrap_err();
    Pastex::from("(3{)}").unwrap_err();
}

#[test]
fn pastex_bad_repeat_targets_fails() {
    Pastex::from("(*4)").unwrap_err();
    Pastex::from("({6}6)").unwrap_err();
    Pastex::from("*2").unwrap_err();
    Pastex::from("{4}4").unwrap_err();
    Pastex::from("5{*5}").unwrap_err();
}

#[test]
fn pastex_bad_repeat_bracket_contents_fails() {
    Pastex::from("5{5*}").unwrap_err();
    Pastex::from("6{(6)}").unwrap_err();
    Pastex::from("7{7{7}}").unwrap_err();
}

#[test]
fn empty_string_gives_empty_group_zprex() {
    let p = Zprex::from("").unwrap();
    let empty: Zprex = IMEx(vec![]);
    assert_eq!(p, empty);
}

#[test]
fn repeats_gives_repeating_zprex() {
    let p = Zprex::from("13{3}9*1").unwrap();
    let expected: Zprex = IMEx(vec![
        QuantifiedZprVal { val: ZprVal::Single(1), quantifier: Quantifier::Finite(1) },
        QuantifiedZprVal { val: ZprVal::Single(3), quantifier: Quantifier::Finite(3) },
        QuantifiedZprVal { val: ZprVal::Single(9), quantifier: Quantifier::Infinite },
        QuantifiedZprVal { val: ZprVal::Single(1), quantifier: Quantifier::Finite(1) },
    ]);
    assert_eq!(p, expected);
}

#[test]
fn parens_gives_group_zprex() {
    let p = Zprex::from("1(1)(9)*(4){4}(1(1))()").unwrap();
    assert_eq!(p, expected_parens());
}

#[test]
fn zprex_bad_chars_fails() {
    Zprex::from("0O0").unwrap_err();
    Zprex::from("^[0]+$").unwrap_err();
    Zprex::from("123*4{5}(x)*").unwrap_err();
}

#[test]
fn zprex_too_many_closed_parens_fails() {
    Zprex::from("0(1)2)3(4)5").unwrap_err();
    Zprex::from("0{1}2}3{4}5").unwrap_err();
    Zprex::from("0(1)2(3))").unwrap_err();
}

#[test]
fn zprex_too_many_open_parens_fails() {
    Zprex::from("0(1)2(3(4)5").unwrap_err();
    Zprex::from("0{1}2{3{4}5").unwrap_err();
    Zprex::from("0{1}23{4}5{6").unwrap_err();
    Zprex::from("((0)1(2)3").unwrap_err();
}

#[test]
fn zprex_mismatched_parens_fails() {
    Zprex::from(")(").unwrap_err();
    Zprex::from("(3{)}").unwrap_err();
}

#[test]
fn zprex_bad_repeat_targets_fails() {
    Zprex::from("(*4)").unwrap_err();
    Zprex::from("({6}6)").unwrap_err();
    Zprex::from("*2").unwrap_err();
    Zprex::from("{4}4").unwrap_err();
    Zprex::from("5{*5}").unwrap_err();
}

#[test]
fn zprex_bad_repeat_bracket_contents_fails() {
    Zprex::from("5{5*}").unwrap_err();
    Zprex::from("6{(6)}").unwrap_err();
    Zprex::from("7{7{7}}").unwrap_err();
}

fn pat_single(i: usize, r: Repeater) -> Pattern {
    Pattern { data: PatternData::Single(i), repeater: r }
}

fn pat_group(ps: Vec<Pattern>, r: Repeater) -> Pattern {
    Pattern { data: PatternData::Group(ps), repeater: r }
}

#[test]
fn empty_string_gives_empty_group_pattern() {
    let p = Pattern::from("").unwrap();
    assert_eq!(p, pat_group(vec![], Repeater::Finite(1)));
}

#[test]
fn repeats_gives_repeating_patterns() {
    let p = Pattern::from("13{3}9*1").unwrap();
    assert_eq!(
        p,
        pat_group(
            vec![
                pat_single(1, Repeater::Finite(1)),
                pat_single(3, Repeater::Finite(3)),
                pat_single(9, Repeater::Infinite),
                pat_single(1, Repeater::Finite(1)),
            ],
            Repeater::Finite(1),
        )
    );
}

#[test]
fn parens_gives_group_patterns() {
    let p = Pattern::from("1(1)(9)*(4){4}(1(1))()").unwrap();
    assert_eq!(
        p,
        pat_group(
            vec![
                pat_single(1, Repeater::Finite(1)),
                pat_group(vec![pat_single(1, Repeater::Finite(1))], Repeater::Finite(1)),
                pat_group(vec![pat_single(9, Repeater::Finite(1))], Repeater::Infinite),
                pat_group(vec![pat_single(4, Repeater::Finite(1))], Repeater::Finite(4)),
                pat_group(
                    vec![
                        pat_single(1, Repeater::Finite(1)),
                        pat_group(vec![pat_single(1, Repeater::Finite(1))], Repeater::Finite(1)),
                    ],
                    Repeater::Finite(1),
                ),
                pat_group(vec![], Repeater::Finite(1)),
            ],
            Repeater::Finite(1),
        )
    );
}

#[test]
fn pattern_bad_chars_fails() {
    Pattern::from("0O0").unwrap_err();
    Pattern::from("^[0]+$").unwrap_err();
    Pattern::from("123*4{5}(x)*").unwrap_err();
}

#[test]
fn pattern_too_many_closed_parens_fails() {
    Pattern::from("0(1)2)3(4)5").unwrap_err();
    Pattern::from("0{1}2}3{4}5").unwrap_err();
    Pattern::from("0(1)2(3))").unwrap_err();
}

#[test]
fn pattern_too_many_open_parens_fails() {
    Pattern::from("0(1)2(3(4)5").unwrap_err();
    Pattern::from("0{1}2{3{4}5").unwrap_err();
    Pattern::from("0{1}23{4}5{6").unwrap_err();
    Pattern::from("((0)1(2)3").unwrap_err();
}

#[test]
fn pattern_mismatched_parens_fails() {
    Pattern::from(")(").unwrap_err();
    Pattern::from("(3{)}").unwrap_err();
}

#[test]
fn pattern_bad_repeat_targets_fails() {
    Pattern::from("(*4)").unwrap_err();
    Pattern::from("({6}6)").unwrap_err();
    Pattern::from("*2").unwrap_err();
    Pattern::from("{4}4").unwrap_err();
    Pattern::from("5{*5}").unwrap_err();
}

#[test]
fn pattern_bad_repeat_bracket_contents_fails() {
    Pattern::from("5{5*}").unwrap_err();
    Pattern::from("6{(6)}").unwrap_err();
    Pattern::from("7{7{7}}").unwrap_err();
}

#[test]
fn default_quantifier_forms() {
    assert_eq!(IMEx::from("5").unwrap(), IMEx(vec![single(5, Quantifier::Finite(1))]));
    assert_eq!(IMEx::from("5*").unwrap(), IMEx(vec![single(5, Quantifier::Infinite)]));
    assert_eq!(IMEx::from("5{3}").unwrap(), IMEx(vec![single(5, Quantifier::Finite(3))]));
}

#[test]
fn groups_do_not_collapse() {
    assert_eq!(
        IMEx::from("(5)").unwrap(),
        IMEx(vec![group(IMEx(vec![single(5, Quantifier::Finite(1))]), Quantifier::Finite(1))])
    );
}

#[test]
fn zero_count_parses() {
    assert_eq!(IMEx::from("7{0}").unwrap(), IMEx(vec![single(7, Quantifier::Finite(0))]));
}

#[test]
fn multi_digit_count_parses() {
    assert_eq!(IMEx::from("2{45}").unwrap(), IMEx(vec![single(2, Quantifier::Finite(45))]));
}

#[test]
fn printed_form_reparses_structurally_equal() {
    let e = IMEx::from("1(1)(9)*(4){4}(1(1))()").unwrap();
    let s = e.to_pattern_string();
    let e2 = IMEx::from(&s).unwrap();
    assert_eq!(e, e2);
}

#[test]
fn printed_form_is_canonical() {
    let e = IMEx::from("0{12}(34)*5").unwrap();
    assert_eq!(e.to_pattern_string(), "0{12}(34)*5");
    let e = IMEx::from("7{1}").unwrap();
    assert_eq!(e.to_pattern_string(), "7");
}
