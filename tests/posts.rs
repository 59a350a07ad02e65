use occult_code::models::Article;
use occult_code::posts::{parse_metadata, parse_post, post_from_parts, sort_by_id, PostError};
use occult_code::text::trim_str;

#[test]
fn post_with_full_metadata() {
    let raw = "---\nid: 7\ntitle: The Tree of Life\ndate: 2026-01-15\n---\n\n  Sephirot and paths.  \n";
    let a = parse_post(raw).expect("a valid post");
    assert_eq!(a.id, 7);
    assert_eq!(a.title, "The Tree of Life");
    assert_eq!(a.date, "2026-01-15");
    assert_eq!(a.content, "Sephirot and paths.");
}

#[test]
fn post_with_crlf_line_endings() {
    let raw = "---\r\nid: 12\r\ntitle: Runes\r\ndate: 2026-02-01\r\n---\r\nBody text\r\n";
    let a = parse_post(raw).expect("a valid post");
    assert_eq!(a.id, 12);
    assert_eq!(a.title, "Runes");
    assert_eq!(a.date, "2026-02-01");
    assert_eq!(a.content, "Body text");
}

#[test]
fn post_body_may_hold_separators() {
    let raw = "---\nid: 3\n---\nfirst\n---\nsecond";
    let a = parse_post(raw).unwrap();
    assert_eq!(a.id, 3);
    assert_eq!(a.title, "");
    assert_eq!(a.content, "first\n---\nsecond");
}

#[test]
fn post_without_front_matter_is_invalid() {
    assert_eq!(parse_post("just some text").unwrap_err(), PostError::InvalidFormat);
    assert_eq!(parse_post("---\nid: 1\n").unwrap_err(), PostError::InvalidFormat);
    assert_eq!(parse_post("").unwrap_err(), PostError::InvalidFormat);
}

#[test]
fn post_without_id_is_refused() {
    let raw = "---\ntitle: No number\n---\nbody";
    assert_eq!(parse_post(raw).unwrap_err(), PostError::MissingId);
    let zero = "---\nid: 0\ntitle: Zero\n---\nbody";
    assert_eq!(parse_post(zero).unwrap_err(), PostError::MissingId);
    let bad = "---\nid: seven\n---\nbody";
    assert_eq!(parse_post(bad).unwrap_err(), PostError::MissingId);
}

#[test]
fn metadata_lines() {
    let m = parse_metadata("id: 4\nauthor: someone\ntitle:  A: B \nno colon here\ndate:2026");
    assert_eq!(m.id, 4);
    assert_eq!(m.title, "A: B");
    assert_eq!(m.date, "2026");
}

#[test]
fn metadata_later_lines_override() {
    let m = parse_metadata("id: 4\nid: 9\ntitle: x\ntitle: y\n");
    assert_eq!(m.id, 9);
    assert_eq!(m.title, "y");
    let empty = parse_metadata("");
    assert_eq!(empty.id, 0);
    assert_eq!(empty.title, "");
    assert_eq!(empty.date, "");
}

#[test]
fn parts_are_assembled() {
    let a = post_from_parts("id: 2\ntitle: T\ndate: D", "\n body \n").unwrap();
    assert_eq!((a.id, a.title.as_str(), a.date.as_str(), a.content.as_str()), (2, "T", "D", "body"));
    assert_eq!(post_from_parts("title: T", "body").unwrap_err(), PostError::MissingId);
}

#[test]
fn trimming() {
    assert_eq!(trim_str("  a b \t\n"), "a b");
    assert_eq!(trim_str("\u{3000}x\u{a0}"), "x");
    assert_eq!(trim_str("   "), "");
    assert_eq!(trim_str(""), "");
}

#[test]
fn sorting_by_id() {
    let v = vec![
        Article::new(3, "c", "", ""),
        Article::new(1, "a", "", ""),
        Article::new(2, "b", "", ""),
        Article::new(1, "a2", "", ""),
    ];
    let r = sort_by_id(v);
    let got: Vec<(usize, String)> = r.iter().map(|a| (a.id, a.title.clone())).collect();
    assert_eq!(
        got,
        vec![(1, "a".to_string()), (1, "a2".to_string()), (2, "b".to_string()), (3, "c".to_string())]
    );
    assert!(sort_by_id(Vec::new()).is_empty());
}
