use imex::pattern::Pattern;
use imex::{IMEx, MergeError, PasteIter, SyntaxError, SyntaxErrorKind};

fn chars(s: &str) -> Vec<char> {
    s.chars().collect()
}

#[test]
fn bad_char_is_reported_with_position() {
    let e = IMEx::from("01x2").unwrap_err();
    assert_eq!(e, SyntaxError { kind: SyntaxErrorKind::BadChar('x'), pos: 2 });
}

#[test]
fn non_digit_in_brace_is_reported() {
    let e = IMEx::from("5{1a}").unwrap_err();
    assert_eq!(e, SyntaxError { kind: SyntaxErrorKind::NonDigitInBrace('a'), pos: 3 });
}

#[test]
fn quantifier_without_target_is_reported() {
    let e = IMEx::from("*2").unwrap_err();
    assert_eq!(e, SyntaxError { kind: SyntaxErrorKind::QuantifierWithoutTarget('*'), pos: 0 });
    let e = IMEx::from("({3}3)").unwrap_err();
    assert_eq!(e, SyntaxError { kind: SyntaxErrorKind::QuantifierWithoutTarget('{'), pos: 1 });
}

#[test]
fn empty_brace_is_reported() {
    let e = IMEx::from("5{}").unwrap_err();
    assert_eq!(e, SyntaxError { kind: SyntaxErrorKind::EmptyBrace, pos: 2 });
}

#[test]
fn count_overflow_is_reported() {
    let e = IMEx::from("5{99999999999999999999999999}").unwrap_err();
    assert_eq!(e.kind, SyntaxErrorKind::CountOverflow);
}

#[test]
fn unmatched_close_is_reported() {
    let e = IMEx::from("01)2").unwrap_err();
    assert_eq!(e, SyntaxError { kind: SyntaxErrorKind::UnmatchedClose, pos: 2 });
}

#[test]
fn unmatched_open_is_reported_at_end() {
    let e = IMEx::from("0(1").unwrap_err();
    assert_eq!(e, SyntaxError { kind: SyntaxErrorKind::UnmatchedOpen, pos: 3 });
}

#[test]
fn unterminated_brace_is_reported_at_end() {
    let e = IMEx::from("5{12").unwrap_err();
    assert_eq!(e, SyntaxError { kind: SyntaxErrorKind::UnterminatedBrace, pos: 4 });
}

#[test]
fn out_of_range_error_names_the_index() {
    let mut p = PasteIter::from(vec![chars("00"), chars("11")], "0120").unwrap();
    assert_eq!(p.next(), Some(Ok('0')));
    assert_eq!(p.next(), Some(Ok('1')));
    assert_eq!(p.next(), Some(Err(MergeError::IndexOutOfRange(2))));
}

#[test]
fn merge_streams_merges_eagerly() {
    let p = Pattern::from("01(10){3}").unwrap();
    let mut streams = vec![chars("00000"), chars("11111")];
    let out: String = p.merge_streams(&mut streams).unwrap().into_iter().collect();
    assert_eq!(out, "01101010");
    assert_eq!(streams.len(), 0);
}

#[test]
fn merge_streams_reports_out_of_range() {
    let p = Pattern::from("0120").unwrap();
    let mut streams = vec![chars("000"), chars("111")];
    assert_eq!(p.merge_streams(&mut streams), Err(MergeError::IndexOutOfRange(2)));
}

#[test]
fn empty_pattern_consumes_nothing() {
    let i = IMEx::from("").unwrap();
    assert_eq!(i.0.len(), 0);
    let mut it = imex::IMExIter::new(vec![chars("abc"), chars("xyz")], "").unwrap();
    assert_eq!(it.next(), None);
}
