use imex::paste_iter::PasteIter;
use imex::zipper::Zipper;
use imex::{IMExIter, IMExMerges, Pastes};

fn chars(s: &str) -> Vec<char> {
    s.chars().collect()
}

fn drain(mut it: IMExIter<char>) -> String {
    it.collect_remaining().into_iter().collect()
}

fn drain_strict(mut it: PasteIter<char>) -> Result<String, imex::MergeError> {
    it.collect_remaining().map(|v| v.into_iter().collect())
}

#[test]
fn non_repeating_imex_might_not_complete() {
    let iters = vec![chars("00000"), chars("11111")];
    let i = IMExIter::new(iters, "01(10){3}").unwrap();

    assert_eq!(drain(i), "01101010");
}

#[test]
fn repeating_imex_repeats() {
    let iters = vec![chars("00000000"), chars("111111")];
    let i = IMExIter::new(iters, "0{3}1(01){5}").unwrap();

    assert_eq!(drain(i), "00010101010101");
}

#[test]
fn completed_imex_exits_repeating() {
    let iters = vec![chars("000"), chars("111"), chars("22222")];
    let i = IMExIter::new(iters, "0*(12)*").unwrap();

    assert_eq!(drain(i), "00012121222");
}

#[test]
fn out_of_range_imex_skips() {
    let iters = vec![chars("000"), chars("111")];
    let i = IMExIter::new(iters, "0120").unwrap();

    assert_eq!(drain(i), "010");
}

#[test]
fn empty_imex_gives_empty_merge() {
    let iters = vec![chars("000"), chars("111")];
    let i = IMExIter::new(iters, "").unwrap();

    assert_eq!(drain(i), String::new());
}

#[test]
fn iter_empty_iters_give_empty_merge() {
    let iters = vec![chars(""), chars(""), chars("")];
    let i = IMExIter::new(iters, "0120").unwrap();

    assert_eq!(drain(i), String::new());
}

#[test]
fn empty_iter_list_gives_empty_merge() {
    let iters: Vec<Vec<char>> = vec![];
    let i = IMExIter::new(iters, "0120").unwrap();

    assert_eq!(drain(i), String::new());
}

#[test]
fn non_repeating_pastex_might_not_complete() {
    let iters = vec![chars("00000"), chars("11111")];
    let p = PasteIter::from(iters, "01(10){3}").unwrap();

    assert_eq!(drain_strict(p).unwrap(), "01101010");
}

#[test]
fn repeating_pastex_repeats() {
    let iters = vec![chars("00000000"), chars("111111")];
    let p = PasteIter::from(iters, "0{3}1(01){5}").unwrap();

    assert_eq!(drain_strict(p).unwrap(), "00010101010101");
}

#[test]
fn completed_pastex_exits_repeating() {
    let iters = vec![chars("000"), chars("111"), chars("22222")];
    let p = PasteIter::from(iters, "0*(12)*").unwrap();

    assert_eq!(drain_strict(p).unwrap(), "00012121222");
}

#[test]
fn out_of_range_pastex_fails() {
    let iters = vec![chars("000"), chars("111")];
    let mut p = PasteIter::from(iters, "0120").unwrap();

    if let Some(r) = p.next().and(p.next()).and(p.next()) {
        r.unwrap_err();
    } else {
        panic!("Expected an error, not None");
    }
}

#[test]
fn empty_pastex_gives_empty_merge() {
    let iters = vec![chars("000"), chars("111")];
    let p = PasteIter::from(iters, "").unwrap();

    assert_eq!(drain_strict(p).unwrap(), String::new());
}

#[test]
fn paste_iter_empty_iters_give_empty_merge() {
    let iters = vec![chars(""), chars(""), chars("")];
    let p = PasteIter::from(iters, "0120").unwrap();

    assert_eq!(drain_strict(p).unwrap(), String::new());
}

#[test]
fn empty_iter_list_only_passes_for_empty_pastex() {
    let iters: Vec<Vec<char>> = vec![];
    let mut p = PasteIter::from(iters, "0120").unwrap();

    if let Some(r) = p.next().and(p.next()).and(p.next()) {
        r.unwrap_err();
    } else {
        panic!("Expected an error, not None");
    }

    let iters: Vec<Vec<char>> = vec![];
    let p = PasteIter::from(iters, "").unwrap();

    assert_eq!(drain_strict(p).unwrap(), String::new());
}

#[test]
fn non_repeating_zprex_might_not_complete() {
    let iters = vec![chars("00000"), chars("11111")];
    let z = Zipper::from(iters, "01(10){3}").unwrap();

    assert_eq!(drain_strict(z).unwrap(), "01101010");
}

#[test]
fn repeating_zprex_repeats() {
    let iters = vec![chars("00000000"), chars("111111")];
    let z = Zipper::from(iters, "0{3}1(01){5}").unwrap();

    assert_eq!(drain_strict(z).unwrap(), "00010101010101");
}

#[test]
fn completed_zprex_exits_repeating() {
    let iters = vec![chars("000"), chars("111"), chars("22222")];
    let z = Zipper::from(iters, "0*(12)*").unwrap();

    assert_eq!(drain_strict(z).unwrap(), "00012121222");
}

#[test]
fn out_of_range_zprex_fails() {
    let iters = vec![chars("000"), chars("111")];
    let mut z = Zipper::from(iters, "0120").unwrap();

    if let Some(r) = z.next().and(z.next()).and(z.next()) {
        r.unwrap_err();
    } else {
        panic!("Expected an error, not None");
    }
}

#[test]
fn empty_zprex_gives_empty_merge() {
    let iters = vec![chars("000"), chars("111")];
    let z = Zipper::from(iters, "").unwrap();

    assert_eq!(drain_strict(z).unwrap(), String::new());
}

#[test]
fn zipper_empty_iters_give_empty_merge() {
    let iters = vec![chars(""), chars(""), chars("")];
    let z = Zipper::from(iters, "0120").unwrap();

    assert_eq!(drain_strict(z).unwrap(), String::new());
}

#[test]
fn empty_iter_list_only_passes_for_empty_zprex() {
    let iters: Vec<Vec<char>> = vec![];
    let mut z = Zipper::from(iters, "0120").unwrap();

    if let Some(r) = z.next().and(z.next()).and(z.next()) {
        r.unwrap_err();
    } else {
        panic!("Expected an error, not None");
    }

    let iters: Vec<Vec<char>> = vec![];
    let z = Zipper::from(iters, "").unwrap();

    assert_eq!(drain_strict(z).unwrap(), String::new());
}

#[test]
fn pastex() {
    let r = chars("12345")
        .pastex(&mut vec![chars("abcde"), chars("!@#$%")], "0(1120)*")
        .unwrap();

    assert_eq!(drain_strict(r).unwrap(), "1ab!2cd@3e#4$5%");
}

#[test]
fn paste() {
    let r = chars("1234").paste(&mut vec![chars("abcdefg"), chars("!@#")]);

    assert_eq!(drain_strict(r).unwrap(), "1a!2b@3c#4defg");
}

#[test]
fn pastex_both() {
    let r = chars("12345").pastex_both(chars("ab"), "0*1*").unwrap();

    assert_eq!(drain_strict(r).unwrap(), "12345ab");
}

#[test]
fn paste_both() {
    let r = chars("12").paste_both(chars("ab"));

    assert_eq!(drain_strict(r).unwrap(), "1a2b");
}

#[test]
fn imex_merge_all_rotates_by_pattern() {
    let merged = chars("12345")
        .imex_merge_all(&mut vec![chars("abcde"), chars("!@#$%")], "0(1120)*")
        .unwrap();

    assert_eq!(drain(merged), "1ab!2cd@3e#4$5%");
}

#[test]
fn rot_merge_all_rotates() {
    let merged = chars("1234").rot_merge_all(&mut vec![chars("abcdefg"), chars("!@#")]);

    assert_eq!(drain(merged), "1a!2b@3c#4defg");
}

#[test]
fn imex_merge_interleaves() {
    let merged = chars("123456").imex_merge(chars("abc"), "0(01){4}").unwrap();

    assert_eq!(drain(merged), "12a3b4c5");
}

#[test]
fn alt_merge_alternates() {
    let merged = chars("12").alt_merge(chars("ab"));

    assert_eq!(drain(merged), "1a2b");
}
