use quarto_term::screen::{mark_prompts, prompt_prefix_len};
use quarto_term::renderer::RenderedLine;
use quarto_term::screen::{
    at_primary_prompt, at_prompt, capture_range, is_only_prompt, last_nonempty, scrollback_count,
    terminal_replies, trim_trailing_prompts,
};

fn texts(v: &[&str]) -> Vec<String> {
    v.iter().map(|s| s.to_string()).collect()
}

fn make_rendered(text: &str) -> RenderedLine {
    RenderedLine { html: text.to_string(), text: text.to_string() }
}

#[test]
fn reply_to_cursor_position_query() {
    assert_eq!(terminal_replies(b"ab\x1b[6ncd", 4, 9), b"\x1b[5;10R".to_vec());
}

#[test]
fn reply_to_device_attributes() {
    assert_eq!(terminal_replies(b"\x1b[c", 0, 0), b"\x1b[?62;22c".to_vec());
    assert_eq!(terminal_replies(b"\x1b[0c", 0, 0), b"\x1b[?62;22c".to_vec());
}

#[test]
fn reply_to_color_queries_in_order() {
    assert_eq!(
        terminal_replies(b"\x1b]10;?\x07\x1b]11;?\x07", 0, 0),
        b"\x1b]10;rgb:ffff/ffff/ffff\x1b\\\x1b]11;rgb:0000/0000/0000\x1b\\".to_vec()
    );
}

#[test]
fn no_reply_without_queries() {
    assert_eq!(terminal_replies(b"plain output\r\n", 3, 3), Vec::<u8>::new());
    assert_eq!(terminal_replies(b"\x1b[31mred", 3, 3), Vec::<u8>::new());
}

#[test]
fn last_nonempty_line() {
    assert_eq!(last_nonempty(&texts(&["a", "", "b", "", ""])), Some(2));
    assert_eq!(last_nonempty(&texts(&["", ""])), None);
}

#[test]
fn primary_prompt_on_last_line() {
    let p = "\\$\\s*$";
    assert!(at_primary_prompt(&texts(&["$ ls", "file", "$ ", ""]), p));
    assert!(!at_primary_prompt(&texts(&["$ ls", "file", ""]), p));
    assert!(!at_primary_prompt(&texts(&["", ""]), p));
}

#[test]
fn continuation_prompt_counts() {
    let p = "\\$\\s*$";
    let ps2 = "^>\\s*$";
    let screen = texts(&["$ for i in 1; do", "> ", ""]);
    assert!(at_prompt(&screen, 1, 2, p, Some(ps2)));
    assert!(at_prompt(&screen, 2, 0, p, Some(ps2)));
    assert!(!at_prompt(&screen, 2, 0, p, None));
}

#[test]
fn only_prompt_lines() {
    let p = "\\$\\s*$";
    assert!(is_only_prompt(p, "$ "));
    assert!(!is_only_prompt(p, "$ ls"));
    assert!(!is_only_prompt("(", "$ "));
}

#[test]
fn trailing_prompts_dropped() {
    let mut lines = vec![make_rendered("$ ls"), make_rendered("a"), make_rendered("$ "), make_rendered("")];
    trim_trailing_prompts(&mut lines, "\\$\\s*$");
    assert_eq!(lines.len(), 2);
    assert_eq!(lines[1].text, "a");
}

#[test]
fn scrollback_counts_lines_off_screen() {
    assert_eq!(scrollback_count(30, 24), 6);
    assert_eq!(scrollback_count(10, 24), 0);
}

#[test]
fn capture_range_takes_cursor_line_when_not_empty() {
    let all = texts(&["$ ls", "a", "$ "]);
    assert_eq!(capture_range(0, 0, 0, 2, &all), Some((0, 3)));
    let all = texts(&["$ ls", "a", ""]);
    assert_eq!(capture_range(0, 0, 0, 2, &all), Some((0, 2)));
    assert_eq!(capture_range(2, 0, 0, 2, &all), None);
    assert_eq!(capture_range(1, 5, 5, 2, &all), None);
}

#[test]
fn trimming_prompts_twice_changes_nothing_more() {
    let mut lines = vec![make_rendered("$ true"), make_rendered(""), make_rendered("$ ")];
    trim_trailing_prompts(&mut lines, "\\$\\s*$");
    assert_eq!(lines.len(), 1);
    trim_trailing_prompts(&mut lines, "\\$\\s*$");
    assert_eq!(lines.len(), 1);
    assert_eq!(lines[0].text, "$ true");
}

#[test]
fn prompt_prefix_lengths_and_marking() {
    assert_eq!(prompt_prefix_len("^\\$\\s?", None, "$ ls"), 2);
    assert_eq!(prompt_prefix_len("^\\$\\s?", Some("^>\\s?"), "> x"), 2);
    assert_eq!(prompt_prefix_len("^\\$\\s?", None, "plain"), 0);
    let mut lines = vec![
        RenderedLine { html: "<b>é$</b> go".to_string(), text: "é$ go".to_string() },
        make_rendered("no prompt"),
    ];
    mark_prompts(&mut lines, "^é\\$\\s?", None);
    assert_eq!(lines[0].html, "<span class=\"term-prompt\"><b>é$</b> </span>go");
    assert_eq!(lines[0].text, "é$ go");
    assert_eq!(lines[1].html, "no prompt");
}
