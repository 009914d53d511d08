use quarto_term::keymap::{translate, translate_keycode};

#[test]
fn test_ctrl_c() {
    assert_eq!(translate_keycode("ctrl-c"), vec![0x03]);
    assert_eq!(translate_keycode("Ctrl-C"), vec![0x03]);
    assert_eq!(translate_keycode("C-c"), vec![0x03]);
}

#[test]
fn test_arrow_keys() {
    assert_eq!(translate_keycode("up"), b"\x1b[A".to_vec());
    assert_eq!(translate_keycode("Down"), b"\x1b[B".to_vec());
}

#[test]
fn test_enter() {
    assert_eq!(translate_keycode("enter"), vec![b'\r']);
    assert_eq!(translate_keycode("Enter"), vec![b'\r']);
}

#[test]
fn test_fallback_raw() {
    assert_eq!(translate_keycode("q"), b"q".to_vec());
    assert_eq!(translate_keycode("hello"), b"hello".to_vec());
}

#[test]
fn test_shift_a() {
    assert_eq!(translate_keycode("shift-a"), b"A".to_vec());
    assert_eq!(translate_keycode("Shift-Z"), b"Z".to_vec());
}

#[test]
fn test_alt_a() {
    assert_eq!(translate_keycode("alt-a"), b"\x1b[97;3u".to_vec());
}

#[test]
fn test_ctrl_shift_a() {
    assert_eq!(translate_keycode("ctrl-shift-a"), b"\x1b[97;6u".to_vec());
}

#[test]
fn test_ctrl_alt_a() {
    assert_eq!(translate_keycode("ctrl-alt-a"), b"\x1b[97;7u".to_vec());
}

#[test]
fn test_shift_up() {
    assert_eq!(translate_keycode("shift-up"), b"\x1b[1;2A".to_vec());
}

#[test]
fn test_ctrl_shift_up() {
    assert_eq!(translate_keycode("ctrl-shift-up"), b"\x1b[1;6A".to_vec());
}

#[test]
fn test_alt_f1() {
    assert_eq!(translate_keycode("alt-f1"), b"\x1b[1;3P".to_vec());
}

#[test]
fn test_shift_delete() {
    assert_eq!(translate_keycode("shift-delete"), b"\x1b[3;2~".to_vec());
}

#[test]
fn test_meta_prefix() {
    assert_eq!(translate_keycode("meta-a"), translate_keycode("alt-a"));
    assert_eq!(translate_keycode("m-a"), translate_keycode("alt-a"));
}

#[test]
fn test_ctrl_alt_shift() {
    assert_eq!(translate_keycode("ctrl-alt-shift-a"), b"\x1b[97;8u".to_vec());
}

#[test]
fn ctrl_letter_control_bytes() {
    assert_eq!(translate_keycode("ctrl-a"), vec![0x01]);
    assert_eq!(translate_keycode("c-z"), vec![0x1a]);
    assert_eq!(translate_keycode("ctrl-["), vec![0x1b]);
}

#[test]
fn surrounding_whitespace_ignored() {
    assert_eq!(translate_keycode("  Tab "), vec![b'\t']);
    assert_eq!(translate_keycode("f12"), b"\x1b[24~".to_vec());
}

#[test]
fn translate_tells_named_keys() {
    let k = translate("ctrl-c");
    assert_eq!(k.bytes, vec![0x03]);
    assert!(k.is_named);
    let k = translate("escape");
    assert_eq!(k.bytes, vec![0x1b]);
    assert!(k.is_named);
    let k = translate("q");
    assert_eq!(k.bytes, b"q".to_vec());
    assert!(!k.is_named);
}

#[test]
fn unknown_name_keeps_its_case() {
    assert_eq!(translate_keycode("Hello"), b"Hello".to_vec());
}
