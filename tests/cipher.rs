use occult_code::cipher::{analyze, CipherKind, CipherResult};

fn scores(r: &[CipherResult]) -> Vec<u128> {
    r.iter().map(|x| x.score).collect()
}

#[test]
fn cipher_of_a() {
    let r = analyze("A");
    assert_eq!(r.len(), 3);
    assert_eq!(r[0].kind, CipherKind::Standard);
    assert_eq!(r[0].score, 1);
    assert_eq!(r[0].breakdown, "1");
    assert_eq!(r[1].kind, CipherKind::Reverse);
    assert_eq!(r[1].score, 26);
    assert_eq!(r[1].breakdown, "26");
    assert_eq!(r[2].kind, CipherKind::Reduction);
    assert_eq!(r[2].score, 1);
}

#[test]
fn cipher_of_z() {
    let r = analyze("Z");
    assert_eq!(scores(&r), vec![26, 1, 8]);
    assert_eq!(r[0].breakdown, "26");
    assert_eq!(r[1].breakdown, "1");
}

#[test]
fn cipher_of_ab() {
    let r = analyze("AB");
    assert_eq!(scores(&r), vec![3, 51, 3]);
    assert_eq!(r[0].breakdown, "1+2");
    assert_eq!(r[1].breakdown, "26+25");
}

#[test]
fn cipher_skips_non_letters() {
    let a = analyze("A1B");
    let b = analyze("AB");
    assert_eq!(scores(&a), scores(&b));
    assert_eq!(a[0].breakdown, b[0].breakdown);
    assert_eq!(a[1].breakdown, b[1].breakdown);
    assert_eq!(a[2].breakdown, b[2].breakdown);
}

#[test]
fn cipher_ignores_case() {
    let a = analyze("hello");
    let b = analyze("HELLO");
    assert_eq!(scores(&a), scores(&b));
    assert_eq!(a[0].breakdown, "8+5+12+12+15");
    assert_eq!(a[0].score, 52);
    assert_eq!(a[1].breakdown, "19+22+15+15+12");
    assert_eq!(a[1].score, 83);
    // 8 + 5 + 3 + 3 + 6
    assert_eq!(a[2].score, 25);
}

#[test]
fn cipher_of_empty_text_has_no_results() {
    assert!(analyze("").is_empty());
}

#[test]
fn cipher_without_letters_scores_zero() {
    let r = analyze("123 !?");
    assert_eq!(r.len(), 3);
    assert_eq!(scores(&r), vec![0, 0, 0]);
    for x in &r {
        assert_eq!(x.breakdown, "");
    }
}

#[test]
fn cipher_reduction_note_is_fixed() {
    let a = analyze("A");
    let b = analyze("QUIZ");
    assert!(!a[2].breakdown.is_empty());
    assert_eq!(a[2].breakdown, b[2].breakdown);
}

#[test]
fn cipher_reduction_folds_each_letter() {
    // I = 9, J = 10 -> 1, R = 18 -> 9, S = 19 -> 1
    assert_eq!(analyze("I")[2].score, 9);
    assert_eq!(analyze("J")[2].score, 1);
    assert_eq!(analyze("R")[2].score, 9);
    assert_eq!(analyze("S")[2].score, 1);
}

#[test]
fn cipher_names_in_order() {
    let r = analyze("x");
    let names: Vec<&str> = r.iter().map(|x| x.kind.name()).collect();
    assert_eq!(names, vec!["Standard", "Reverse", "Reduction"]);
}

#[test]
fn cipher_repeated_calls_agree() {
    let text = "Occult Code 2026";
    let a = analyze(text);
    let b = analyze(text);
    assert_eq!(scores(&a), scores(&b));
    for i in 0..3 {
        assert_eq!(a[i].kind, b[i].kind);
        assert_eq!(a[i].breakdown, b[i].breakdown);
    }
}
