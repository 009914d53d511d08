use quarto_term::renderer::RenderedLine;
use quarto_term::typst::{render_fullscreen_to_typst, render_lines_to_typst, typst_escape, TypstTheme};

#[test]
fn typst_escape_special_chars() {
    assert_eq!(typst_escape("#$_*@<>`[]"), "\\#\\$\\_\\*\\@\\<\\>\\`\\[\\]");
}

#[test]
fn typst_escape_passthrough() {
    assert_eq!(typst_escape("hello"), "hello");
}

#[test]
fn render_lines_to_typst_empty() {
    let theme = TypstTheme { bg: None, fg: None, size: None, font_family: None, leading: None };
    assert_eq!(render_lines_to_typst(&[], &theme), "");
}

#[test]
fn render_lines_to_typst_basic() {
    let lines = vec![RenderedLine { html: "hello".to_string(), text: "hello".to_string() }];
    let theme = TypstTheme { bg: None, fg: None, size: None, font_family: None, leading: None };
    let result = render_lines_to_typst(&lines, &theme);
    assert!(result.contains("#block("));
    assert!(result.contains("hello"));
}

#[test]
fn render_lines_to_typst_with_theme() {
    let lines = vec![RenderedLine { html: "x".to_string(), text: "x".to_string() }];
    // a font size of 0.8em and a line height of 1.3, in Typst units
    let theme = TypstTheme {
        bg: Some("1a1b26"),
        fg: Some("c0caf5"),
        size: Some("0.80em"),
        font_family: Some("Fira Code"),
        leading: Some("0.3"),
    };
    let result = render_lines_to_typst(&lines, &theme);
    assert!(result.contains("fill: rgb(\"#1a1b26\")"));
    assert!(result.contains("font: \"Fira Code\""));
    assert!(result.contains("size: 0.80em"));
    assert!(result.contains("fill: rgb(\"#c0caf5\")"));
    assert!(result.contains("leading: 0.3em"));
}

#[test]
fn render_lines_to_typst_with_ansi_markup() {
    let lines = vec![RenderedLine {
        html: "#text(fill: rgb(\"#CD3131\"))[red]".to_string(),
        text: "red".to_string(),
    }];
    let theme = TypstTheme { bg: Some("1a1b26"), fg: None, size: None, font_family: None, leading: None };
    let result = render_lines_to_typst(&lines, &theme);
    assert!(result.contains("#text(fill: rgb(\"#CD3131\"))[red]"));
    assert!(!result.contains("```"));
}

#[test]
fn render_lines_to_typst_plain_uses_raw() {
    let lines = vec![RenderedLine { html: "hello".to_string(), text: "hello".to_string() }];
    let theme = TypstTheme { bg: None, fg: None, size: None, font_family: None, leading: None };
    let result = render_lines_to_typst(&lines, &theme);
    assert!(result.contains("```"));
}

#[test]
fn typst_block_exact() {
    let lines = vec![
        RenderedLine { html: "a".to_string(), text: "a".to_string() },
        RenderedLine { html: "b".to_string(), text: "b".to_string() },
    ];
    let theme = TypstTheme { bg: None, fg: None, size: None, font_family: None, leading: None };
    assert_eq!(
        render_fullscreen_to_typst(&lines, &theme),
        "#block(radius: 4pt, inset: 8pt, width: 100%)[\n#set text(font: \"Courier New\")\n```\na\nb\n```\n]\n"
    );
}
