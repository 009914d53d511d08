use quarto_term::error::truncate_end;

#[test]
fn truncate_end_shorter_than_max() {
    assert_eq!(truncate_end("hello", 10), "hello");
}

#[test]
fn truncate_end_exact_max() {
    assert_eq!(truncate_end("hello", 5), "hello");
}

#[test]
fn truncate_end_longer_than_max() {
    assert_eq!(truncate_end("hello world", 5), "world");
}

#[test]
fn truncate_end_empty() {
    assert_eq!(truncate_end("", 10), "");
}

#[test]
fn truncate_end_zero_keeps_nothing() {
    assert_eq!(truncate_end("abc", 0), "");
}
