use quarto_term::color::Color;
use quarto_term::terminal_line::{line_to_text, line_to_text_raw, pens_equal, styled_runs, Pen, TermCell};

fn color_of(c: avt::Color) -> Color {
    match c {
        avt::Color::Indexed(i) => Color::Indexed(i),
        avt::Color::RGB(rgb) => Color::Rgb(rgb.r, rgb.g, rgb.b),
    }
}

fn pen_of(p: &avt::Pen) -> Pen {
    Pen {
        foreground: p.foreground().map(color_of),
        background: p.background().map(color_of),
        bold: p.is_bold(),
        faint: p.is_faint(),
        italic: p.is_italic(),
        underline: p.is_underline(),
        strikethrough: p.is_strikethrough(),
        blink: p.is_blink(),
        inverse: p.is_inverse(),
    }
}

/// Feeds `ansi_str` to a one-row terminal and returns its line as cells.
fn make_line(ansi_str: &str, cols: usize) -> Vec<TermCell> {
    let mut term = avt::Terminal::new(cols, 1).unwrap();
    term.feed(ansi_str);
    let line = term.screen().line(0).unwrap();
    line.cells()
        .iter()
        .map(|c| TermCell { ch: c.char(), width: c.width(), pen: pen_of(c.pen()) })
        .collect()
}

#[test]
fn line_to_text_trims_trailing() {
    let line = make_line("hello", 80);
    assert_eq!(line_to_text(&line), "hello");
}

#[test]
fn line_to_text_raw_preserves_trailing() {
    let line = make_line("hi", 10);
    let raw = line_to_text_raw(&line);
    assert_eq!(raw.len(), 10);
    assert!(raw.starts_with("hi"));
}

#[test]
fn styled_runs_plain_text() {
    let line = make_line("hello", 80);
    let (runs, _pens) = styled_runs(&line);
    assert_eq!(runs.len(), 1);
    assert!(runs[0].text.starts_with("hello"));
    assert!(runs[0].is_default);
}

#[test]
fn styled_runs_with_color() {
    let line = make_line("\x1b[31mred\x1b[0m normal", 80);
    let (runs, pens) = styled_runs(&line);
    assert!(runs.len() >= 2);
    assert_eq!(runs[0].text, "red");
    assert!(!runs[0].is_default);
    assert_eq!(pens[runs[0].pen_idx].foreground, Some(Color::Indexed(1)));
}

#[test]
fn pens_equal_default() {
    let pen = Pen::default();
    assert!(pens_equal(&pen, &pen));
}

#[test]
fn pens_differ_by_attribute() {
    let a = Pen::default();
    let b = Pen { bold: true, ..Pen::default() };
    assert!(!pens_equal(&a, &b));
}
