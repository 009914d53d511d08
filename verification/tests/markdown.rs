use quarto_term::markdown::{fence_for_content, render_fullscreen_to_markdown, render_lines_to_markdown};
use quarto_term::renderer::RenderedLine;

fn make_line(text: &str) -> RenderedLine {
    RenderedLine { html: format!("<b>{}</b>", text), text: text.to_string() }
}

#[test]
fn render_lines_to_markdown_empty() {
    assert_eq!(render_lines_to_markdown(&[]), "");
}

#[test]
fn render_lines_to_markdown_uses_text() {
    let lines = vec![make_line("$ echo hi"), make_line("hi")];
    let result = render_lines_to_markdown(&lines);
    assert_eq!(result, "```console\n$ echo hi\nhi\n```\n");
    assert!(!result.contains("<b>"));
}

#[test]
fn render_fullscreen_to_markdown_empty() {
    assert_eq!(render_fullscreen_to_markdown(&[]), "");
}

#[test]
fn render_fullscreen_to_markdown_uses_text_fence() {
    let lines = vec![make_line("screen")];
    let result = render_fullscreen_to_markdown(&lines);
    assert!(result.starts_with("```text\n"));
}

#[test]
fn fence_for_content_no_backticks() {
    assert_eq!(fence_for_content("hello world"), "```");
}

#[test]
fn fence_for_content_with_triple_backticks() {
    assert_eq!(fence_for_content("some ```code``` here"), "````");
}

#[test]
fn fence_for_content_with_long_run() {
    assert_eq!(fence_for_content("a ````` b"), "``````");
}

#[test]
fn render_lines_with_backticks_in_content() {
    let lines = vec![make_line("echo ```hello```")];
    let result = render_lines_to_markdown(&lines);
    assert!(result.starts_with("````console\n"));
    assert!(result.ends_with("\n````\n"));
}

#[test]
fn fence_outlasts_every_run() {
    // runs of 1, 4 and 2 backticks: the fence needs 5
    let f = fence_for_content("` ```` ``");
    assert_eq!(f, "`````");
}
