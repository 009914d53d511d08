use quarto_term::docx::{render_lines_to_docx, xml_escape, DocxTheme};
use quarto_term::renderer::RenderedLine;

#[test]
fn xml_escape_basic() {
    assert_eq!(xml_escape("<a>&\"b\"</a>"), "&lt;a&gt;&amp;&quot;b&quot;&lt;/a&gt;");
}

#[test]
fn xml_escape_passthrough() {
    assert_eq!(xml_escape("hello"), "hello");
}

#[test]
fn render_lines_to_docx_empty() {
    let theme = DocxTheme { bg: None, fg: None, font_half_points: None, font_family: None, line_twips: None };
    assert_eq!(render_lines_to_docx(&[], &theme), "");
}

#[test]
fn render_lines_to_docx_basic() {
    let lines = vec![RenderedLine {
        html: "<w:r><w:t xml:space=\"preserve\">hello</w:t></w:r>".to_string(),
        text: "hello".to_string(),
    }];
    let theme = DocxTheme { bg: None, fg: None, font_half_points: None, font_family: None, line_twips: None };
    let result = render_lines_to_docx(&lines, &theme);
    assert!(result.contains("<w:tbl>"));
    assert!(result.contains("hello"));
    assert!(result.contains("Courier New"));
}

#[test]
fn render_lines_to_docx_with_theme() {
    let lines = vec![RenderedLine {
        html: "<w:r><w:t xml:space=\"preserve\">x</w:t></w:r>".to_string(),
        text: "x".to_string(),
    }];
    // a font size of 0.8em is 18 half-points
    let theme = DocxTheme {
        bg: Some("1a1b26"),
        fg: Some("c0caf5"),
        font_half_points: Some(18),
        font_family: Some("Fira Code"),
        line_twips: None,
    };
    let result = render_lines_to_docx(&lines, &theme);
    assert!(result.contains("w:fill=\"1a1b26\""));
    assert!(result.contains("Fira Code"));
    assert!(result.contains("w:val=\"c0caf5\""));
}

#[test]
fn docx_theme_sizes_and_spacing() {
    let lines = vec![RenderedLine { html: "<w:r/>".to_string(), text: String::new() }];
    let theme = DocxTheme { bg: None, fg: None, font_half_points: Some(18), font_family: None, line_twips: Some(264) };
    let result = render_lines_to_docx(&lines, &theme);
    assert!(result.contains("w:val=\"18\""));
    assert!(result.contains("264"));
}
