use quarto_term::lines::{
    check_cell_assertion, check_line_assertion, find_line_flags, key_steps, line_bytes, paste_text,
    pattern_found, recovery_byte, send_flags, send_mode, split_words, CellFlags, LineFlags, SendFlags,
    SendMode,
};

fn line(idx: u32) -> LineFlags {
    LineFlags { line_index: idx, literal: None, enter: None, expect_prompt: None, typing: None }
}

const NO_CELL: CellFlags = CellFlags { literal: None, enter: None, expect_prompt: None };

#[test]
fn find_first_options_for_a_line() {
    let opts = vec![line(2), line(0), line(2)];
    assert_eq!(find_line_flags(&opts, 2), Some(0));
    assert_eq!(find_line_flags(&opts, 0), Some(1));
    assert_eq!(find_line_flags(&opts, 5), None);
}

#[test]
fn defaults_send_text_with_enter_and_wait() {
    let f = send_flags(&NO_CELL, None, false);
    assert_eq!(f, SendFlags { literal: true, enter: true, expect_prompt: true, human: false });
}

#[test]
fn key_name_line_has_no_enter_nor_wait() {
    let mut l = line(0);
    l.literal = Some(false);
    let f = send_flags(&NO_CELL, Some(&l), true);
    assert_eq!(f, SendFlags { literal: false, enter: false, expect_prompt: false, human: true });
}

#[test]
fn line_options_override_cell_options() {
    let cell = CellFlags { literal: Some(false), enter: Some(true), expect_prompt: None };
    let mut l = line(0);
    l.expect_prompt = Some(false);
    l.typing = Some(false);
    let f = send_flags(&cell, Some(&l), true);
    assert_eq!(f, SendFlags { literal: false, enter: true, expect_prompt: false, human: false });
}

#[test]
fn send_modes() {
    assert_eq!(send_mode("ctrl-c enter", false, 0, false, true), SendMode::Keys);
    assert_eq!(send_mode("ctrl-c", false, 0, false, true), SendMode::Plain);
    assert_eq!(send_mode("  body", true, 1, true, false), SendMode::Paste);
    assert_eq!(send_mode("  body", true, 1, true, true), SendMode::Plain);
    assert_eq!(send_mode("first", true, 0, true, false), SendMode::Plain);
}

#[test]
fn split_words_like_split_whitespace() {
    assert_eq!(split_words("  ctrl-c \t enter "), vec!["ctrl-c".to_string(), "enter".to_string()]);
    assert_eq!(split_words(""), Vec::<String>::new());
    assert_eq!(split_words("one"), vec!["one".to_string()]);
}

#[test]
fn key_steps_put_enter_on_last_key() {
    let steps = key_steps("down down enter", true, true);
    assert_eq!(steps.len(), 3);
    assert_eq!(steps[0].key, "down");
    assert!(!steps[0].enter && !steps[0].expect_prompt && !steps[0].last);
    assert!(!steps[1].enter && !steps[1].last);
    assert_eq!(steps[2].key, "enter");
    assert!(steps[2].enter && steps[2].expect_prompt && steps[2].last);
}

#[test]
fn literal_line_bytes() {
    assert_eq!(line_bytes("ls -la", true, true), b"ls -la\r".to_vec());
    assert_eq!(line_bytes("ls", true, false), b"ls".to_vec());
}

#[test]
fn key_line_bytes() {
    assert_eq!(line_bytes("ctrl-c", false, true), vec![0x03]);
    assert_eq!(line_bytes("q", false, true), b"q\r".to_vec());
    assert_eq!(line_bytes("q", false, false), b"q".to_vec());
}

#[test]
fn paste_text_clears_line_first() {
    assert_eq!(paste_text("done"), "\u{15}done");
}

#[test]
fn recovery_sequence() {
    assert_eq!(recovery_byte(0), Some(b'\r'));
    assert_eq!(recovery_byte(1), Some(b'\r'));
    assert_eq!(recovery_byte(2), Some(0x03));
    assert_eq!(recovery_byte(3), None);
}

#[test]
fn patterns_found_as_regex_or_text() {
    assert!(pattern_found("hel+o", "say hello"));
    assert!(!pattern_found("^hello", "say hello"));
    assert!(pattern_found("a(", "x a( y"));
    assert!(!pattern_found("a(", "x a y"));
}

#[test]
fn line_assertion_messages() {
    assert_eq!(check_line_assertion(1, "hel+o", "hello"), None);
    assert_eq!(
        check_line_assertion(1, "xyz", "hello"),
        Some("assertion failed on line 2: pattern \"xyz\" not found in output".to_string())
    );
}

#[test]
fn cell_assertion_messages() {
    assert_eq!(check_cell_assertion("ok", "all ok"), None);
    assert_eq!(
        check_cell_assertion("a\"b", "none"),
        Some("assertion failed: pattern \"a\\\"b\" not found in cell output".to_string())
    );
}
