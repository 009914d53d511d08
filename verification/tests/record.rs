use quarto_term::record::companion_contents;
use quarto_term::record::{check_arguments, companion_path, event_payload, recording_format, RecordingFormat};

fn args(v: &[&str]) -> Vec<String> {
    v.iter().map(|s| s.to_string()).collect()
}

#[test]
fn recording_format_by_suffix() {
    assert_eq!(recording_format("session.termshow"), RecordingFormat::Termshow);
    assert_eq!(recording_format("session.cast"), RecordingFormat::Asciicast);
    assert_eq!(recording_format("termshow"), RecordingFormat::Asciicast);
}

#[test]
fn companion_file_name() {
    assert_eq!(companion_path("out/s.termshow"), "out/s.termshow.yml");
}

#[test]
fn event_payload_quotes_data_as_json() {
    assert_eq!(event_payload("o", "hi\n\"x\""), "\"o\", \"hi\\n\\\"x\\\"\"");
}

#[test]
fn check_arguments_find_record_and_document() {
    assert_eq!(check_arguments(&args(&["--record", "out.cast", "doc.qmd"])), (Some(1), Some(2)));
    assert_eq!(check_arguments(&args(&["doc.qmd"])), (None, Some(0)));
    assert_eq!(check_arguments(&args(&["--record", "--x", "a.cast"])), (None, None));
    assert_eq!(check_arguments(&args(&["-v", "notes.md"])), (None, Some(1)));
}

#[test]
fn companion_names_the_recording() {
    assert_eq!(companion_contents("out/s.termshow"), "source: s.termshow\n");
    assert_eq!(companion_contents("s.termshow"), "source: s.termshow\n");
    assert_eq!(companion_contents(".."), "source: ..\n");
}

#[test]
fn event_payload_escapes_controls() {
    assert_eq!(event_payload("o", "\x1b[0m\t\\"), "\"o\", \"\\u001b[0m\\t\\\\\"");
}
