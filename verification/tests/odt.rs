use quarto_term::odt::render_lines_to_odt;
use quarto_term::renderer::RenderedLine;

#[test]
fn render_lines_to_odt_empty() {
    assert_eq!(render_lines_to_odt(&[]), "");
}

#[test]
fn render_lines_to_odt_basic() {
    let lines = vec![RenderedLine {
        html: "<text:span>hello</text:span>".to_string(),
        text: "hello".to_string(),
    }];
    let result = render_lines_to_odt(&lines);
    assert!(result.contains("Preformatted_20_Text"));
    assert!(result.contains("hello"));
}
