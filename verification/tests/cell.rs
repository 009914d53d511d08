use quarto_term::cell::{build_cell_html, render_line_for_format, shows_output, CellRender};
use quarto_term::terminal_line::{Pen, TermCell};
use quarto_term::protocol::{EchoMode, HighlightSpec, LineSpec};
use quarto_term::renderer::RenderedLine;

fn make_rendered(text: &str) -> RenderedLine {
    RenderedLine { html: text.to_string(), text: text.to_string() }
}

fn render<'a>(format: &'a str, echo: &'a EchoMode, highlight: &'a HighlightSpec, specs: &'a [LineSpec]) -> CellRender<'a> {
    CellRender {
        format,
        code: "echo <hi>",
        echo,
        highlight,
        output: true,
        fullscreen: false,
        keep_last_prompt: false,
        spacing: false,
        prompt: "$",
        prompt_pattern: "\\$\\s*$",
        prompt_prefix_pattern: "^\\$\\s?",
        ps2_prefix_pattern: None,
        remove: specs,
        truncate: &[],
        callouts: &[],
        font_size: None,
        font_family: None,
        line_height: None,
        theme_bg: None,
        theme_fg: None,
        typst_size: None,
        typst_leading: None,
    }
}

#[test]
fn source_echo_in_html() {
    let echo = EchoMode::Mode("source".to_string());
    let hl = HighlightSpec::Language("bash".to_string());
    let mut r = render("html", &echo, &hl, &[]);
    r.output = false;
    let mut lines = vec![make_rendered("ignored")];
    let html = build_cell_html(&r, &mut lines);
    assert_eq!(html, "<pre class=\"term-source\"><code class=\"language-bash\">echo &lt;hi&gt;</code></pre>\n");
    assert_eq!(lines.len(), 1);
}

#[test]
fn source_echo_unsafe_language_falls_back_to_text() {
    let echo = EchoMode::Mode("source".to_string());
    let hl = HighlightSpec::Language("x\" onload=\"y".to_string());
    let mut r = render("html", &echo, &hl, &[]);
    r.output = false;
    let html = build_cell_html(&r, &mut Vec::new());
    assert!(html.contains("language-text"));
}

#[test]
fn source_echo_in_latex_and_markdown() {
    let echo = EchoMode::Mode("source".to_string());
    let hl = HighlightSpec::Bool(true);
    let mut r = render("latex", &echo, &hl, &[]);
    r.output = false;
    assert_eq!(build_cell_html(&r, &mut Vec::new()), "\\begin{verbatim}\necho <hi>\n\\end{verbatim}\n");
    r.format = "markdown";
    assert_eq!(build_cell_html(&r, &mut Vec::new()), "```bash\necho <hi>\n```\n");
}

#[test]
fn terminal_output_drops_trailing_prompt() {
    let echo = EchoMode::Mode("terminal".to_string());
    let hl = HighlightSpec::Bool(true);
    let r = render("html", &echo, &hl, &[]);
    let mut lines = vec![make_rendered("$ echo hi"), make_rendered("hi"), make_rendered("$ ")];
    let html = build_cell_html(&r, &mut lines);
    assert_eq!(
        html,
        "<pre class=\"term-output\"><code><span class=\"term-prompt\">$ </span>echo hi\nhi</code></pre>\n"
    );
    assert_eq!(lines.len(), 2);
}

#[test]
fn output_removal_applies_after_trimming() {
    let echo = EchoMode::Bool(true);
    let hl = HighlightSpec::Bool(true);
    let specs = vec![LineSpec::Index(1)];
    let r = render("markdown", &echo, &hl, &specs);
    let mut lines = vec![make_rendered("$ echo hi"), make_rendered("hi"), make_rendered("$ ")];
    let html = build_cell_html(&r, &mut lines);
    assert_eq!(html, "```console\nhi\n```\n");
}

#[test]
fn hidden_cell_is_empty() {
    let echo = EchoMode::Bool(false);
    let hl = HighlightSpec::Bool(true);
    let mut r = render("html", &echo, &hl, &[]);
    r.output = false;
    assert!(!shows_output(&r));
    let mut lines = vec![make_rendered("x")];
    assert_eq!(build_cell_html(&r, &mut lines), "");
}

#[test]
fn spacing_inserts_blank_line_between_commands() {
    let echo = EchoMode::Mode("terminal".to_string());
    let hl = HighlightSpec::Bool(true);
    let mut r = render("markdown", &echo, &hl, &[]);
    r.spacing = true;
    let mut lines = vec![make_rendered("$ a"), make_rendered("1"), make_rendered("$ b"), make_rendered("2")];
    let html = build_cell_html(&r, &mut lines);
    assert_eq!(html, "```console\n$ a\n1\n\n$ b\n2\n```\n");
}

#[test]
fn render_line_for_each_format() {
    let line: Vec<TermCell> = "a_{b}".chars().map(|ch| TermCell { ch, width: 1, pen: Pen::default() }).collect();
    assert_eq!(render_line_for_format(&line, false, false, "latex").html, "a_\\{b\\}");
    assert_eq!(render_line_for_format(&line, false, false, "typst").html, "a\\_{b}");
    assert_eq!(render_line_for_format(&line, false, false, "html").html, "a_{b}");
    assert_eq!(render_line_for_format(&line, false, false, "latex").text, "a_{b}");
}

#[test]
fn prompts_marked_only_in_html() {
    let echo = EchoMode::Mode("terminal".to_string());
    let hl = HighlightSpec::Bool(true);
    let mut r = render("markdown", &echo, &hl, &[]);
    let mut lines = vec![make_rendered("$ ls"), make_rendered("a")];
    assert_eq!(build_cell_html(&r, &mut lines), "```console\n$ ls\na\n```\n");
    r.format = "html";
    r.ps2_prefix_pattern = Some("^>\\s?");
    let gt = RenderedLine { html: "&gt; x".to_string(), text: "> x".to_string() };
    let mut lines = vec![make_rendered("$ ls"), gt, make_rendered("a")];
    let html = build_cell_html(&r, &mut lines);
    assert_eq!(
        html,
        "<pre class=\"term-output\"><code><span class=\"term-prompt\">$ </span>ls\n<span class=\"term-prompt\">&gt; </span>x\na</code></pre>\n"
    );
}
