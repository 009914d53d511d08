use quarto_term::color::{color_to_hex, Color};
use quarto_term::latex::{css_fontsize_to_latex, latex_escape, render_line, render_lines_to_latex, LatexTheme};
use quarto_term::renderer::RenderedLine;
use quarto_term::terminal_line::{Pen, TermCell};

fn color_of(c: avt::Color) -> Color {
    match c {
        avt::Color::Indexed(i) => Color::Indexed(i),
        avt::Color::RGB(rgb) => Color::Rgb(rgb.r, rgb.g, rgb.b),
    }
}

fn pen_of(p: &avt::Pen) -> Pen {
    Pen {
        foreground: p.foreground().map(color_of),
        background: p.background().map(color_of),
        bold: p.is_bold(),
        faint: p.is_faint(),
        italic: p.is_italic(),
        underline: p.is_underline(),
        strikethrough: p.is_strikethrough(),
        blink: p.is_blink(),
        inverse: p.is_inverse(),
    }
}

/// Feeds `ansi_str` to a one-row terminal and returns its line as cells.
fn make_line(ansi_str: &str, cols: usize) -> Vec<TermCell> {
    let mut term = avt::Terminal::new(cols, 1).unwrap();
    term.feed(ansi_str);
    let line = term.screen().line(0).unwrap();
    line.cells()
        .iter()
        .map(|c| TermCell { ch: c.char(), width: c.width(), pen: pen_of(c.pen()) })
        .collect()
}

#[test]
fn latex_escape_backslash() {
    assert_eq!(latex_escape("a\\b"), "a\\textbackslash{}b");
}

#[test]
fn latex_escape_braces() {
    assert_eq!(latex_escape("{x}"), "\\{x\\}");
}

#[test]
fn latex_escape_combined() {
    assert_eq!(latex_escape("\\{"), "\\textbackslash{}\\{");
}

#[test]
fn latex_escape_passthrough() {
    assert_eq!(latex_escape("hello"), "hello");
}

#[test]
fn latex_color_to_hex_rgb() {
    let c = Color::Rgb(255, 0, 128);
    assert_eq!(color_to_hex(c), "FF0080");
}

#[test]
fn color_to_hex_indexed_0_black() {
    assert_eq!(color_to_hex(Color::Indexed(0)), "000000");
}

#[test]
fn color_to_hex_indexed_1_red() {
    assert_eq!(color_to_hex(Color::Indexed(1)), "CD3131");
}

#[test]
fn color_to_hex_indexed_6cube() {
    assert_eq!(color_to_hex(Color::Indexed(16)), "000000");
}

#[test]
fn color_to_hex_indexed_grayscale() {
    assert_eq!(color_to_hex(Color::Indexed(232)), "080808");
}

#[test]
fn css_fontsize_to_latex_none() {
    assert_eq!(css_fontsize_to_latex(None), "");
}

#[test]
fn css_fontsize_to_latex_06em() {
    assert_eq!(css_fontsize_to_latex(Some("0.6em")), "\\tiny\n");
}

#[test]
fn css_fontsize_to_latex_08em() {
    assert_eq!(css_fontsize_to_latex(Some("0.8em")), "\\small\n");
}

#[test]
fn css_fontsize_to_latex_1em() {
    assert_eq!(css_fontsize_to_latex(Some("1em")), "\\normalsize\n");
}

#[test]
fn css_fontsize_to_latex_fallback() {
    assert_eq!(css_fontsize_to_latex(Some("13pt")), "\\small\n");
}

#[test]
fn render_lines_to_latex_empty() {
    let theme = LatexTheme { bg: None, fg: None, font_size: None, font_family: None, line_height: None };
    assert_eq!(render_lines_to_latex(&[], &theme), "");
}

#[test]
fn render_lines_to_latex_wraps_tcolorbox() {
    let lines = vec![RenderedLine { html: "hello".to_string(), text: "hello".to_string() }];
    let theme = LatexTheme { bg: None, fg: None, font_size: None, font_family: None, line_height: None };
    let result = render_lines_to_latex(&lines, &theme);
    assert!(result.contains("\\begin{tcolorbox}"));
    assert!(result.contains("\\begin{Verbatim}"));
    assert!(result.contains("hello"));
    assert!(result.contains("\\end{Verbatim}"));
    assert!(result.contains("\\end{tcolorbox}"));
}

#[test]
fn render_lines_to_latex_with_theme() {
    let lines = vec![RenderedLine { html: "x".to_string(), text: "x".to_string() }];
    let theme = LatexTheme {
        bg: Some("#1a1b26"),
        fg: Some("#c0caf5"),
        font_size: Some("0.8em"),
        font_family: None,
        line_height: None,
    };
    let result = render_lines_to_latex(&lines, &theme);
    assert!(result.contains("colback=termbg"));
    assert!(result.contains("colupper=termfg"));
    assert!(result.contains("\\small"));
}

#[test]
fn render_lines_to_latex_with_font_family() {
    let lines = vec![RenderedLine { html: "x".to_string(), text: "x".to_string() }];
    let theme = LatexTheme {
        bg: None,
        fg: None,
        font_size: None,
        font_family: Some("Fira Code, monospace"),
        line_height: None,
    };
    let result = render_lines_to_latex(&lines, &theme);
    assert!(result.contains("\\setmonofont{Fira Code}"));
}

#[test]
fn render_lines_to_latex_with_line_height() {
    let lines = vec![RenderedLine { html: "x".to_string(), text: "x".to_string() }];
    let theme = LatexTheme { bg: None, fg: None, font_size: None, font_family: None, line_height: Some("1.4") };
    let result = render_lines_to_latex(&lines, &theme);
    assert!(result.contains("\\linespread{1.4}\\selectfont"));
}

#[test]
fn render_line_plain_no_ansi() {
    let line = make_line("hello", 80);
    let result = render_line(&line, false, false);
    assert_eq!(result.html, "hello");
    assert_eq!(result.text, "hello");
}

#[test]
fn render_line_escapes_latex() {
    let line = make_line("a\\{b}", 80);
    let result = render_line(&line, false, false);
    assert!(result.html.contains("\\textbackslash{}"));
    assert!(result.html.contains("\\{"));
    assert!(result.html.contains("\\}"));
}

#[test]
fn latex_render_line_bold_ansi() {
    let line = make_line("\x1b[1mBOLD\x1b[0m", 80);
    let result = render_line(&line, true, false);
    assert!(result.html.contains("\\textbf{BOLD}"));
}

#[test]
fn render_line_colored_ansi() {
    let line = make_line("\x1b[31mred\x1b[0m", 80);
    let result = render_line(&line, true, false);
    assert!(result.html.contains("\\textcolor[HTML]{CD3131}{red}"));
}

#[test]
fn latex_full_block_exact() {
    let lines = vec![
        RenderedLine { html: "a".to_string(), text: "a".to_string() },
        RenderedLine { html: "b".to_string(), text: "b".to_string() },
    ];
    let theme = LatexTheme { bg: None, fg: None, font_size: None, font_family: None, line_height: None };
    let result = render_lines_to_latex(&lines, &theme);
    assert!(result.starts_with("\\begin{tcolorbox}[colback=black!5!white"));
    assert!(result.contains("a\nb\n\\end{Verbatim}\n\\end{tcolorbox}\n"));
}
