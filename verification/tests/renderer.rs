use quarto_term::renderer::wrap_prompt_span;
use quarto_term::color::{color_to_css, Color};
use quarto_term::renderer::{
    html_escape, is_safe_css_value, is_safe_font_name, is_safe_hex_color, is_safe_language_name,
    render_fullscreen_to_html, render_line, render_lines_to_html, trim_trailing_spaces_html, HtmlStyle,
    RenderedLine,
};
use quarto_term::terminal_line::{Pen, TermCell};

fn color_of(c: avt::Color) -> Color {
    match c {
        avt::Color::Indexed(i) => Color::Indexed(i),
        avt::Color::RGB(rgb) => Color::Rgb(rgb.r, rgb.g, rgb.b),
    }
}

fn pen_of(p: &avt::Pen) -> Pen {
    Pen {
        foreground: p.foreground().map(color_of),
        background: p.background().map(color_of),
        bold: p.is_bold(),
        faint: p.is_faint(),
        italic: p.is_italic(),
        underline: p.is_underline(),
        strikethrough: p.is_strikethrough(),
        blink: p.is_blink(),
        inverse: p.is_inverse(),
    }
}

/// Feeds `ansi_str` to a one-row terminal and returns its line as cells.
fn make_line(ansi_str: &str, cols: usize) -> Vec<TermCell> {
    let mut term = avt::Terminal::new(cols, 1).unwrap();
    term.feed(ansi_str);
    let line = term.screen().line(0).unwrap();
    line.cells()
        .iter()
        .map(|c| TermCell { ch: c.char(), width: c.width(), pen: pen_of(c.pen()) })
        .collect()
}

#[test]
fn html_escape_ampersand() {
    assert_eq!(html_escape("a&b"), "a&amp;b");
}

#[test]
fn html_escape_lt_gt() {
    assert_eq!(html_escape("<tag>"), "&lt;tag&gt;");
}

#[test]
fn html_escape_quote() {
    assert_eq!(html_escape(r#"say "hi""#), "say &quot;hi&quot;");
}

#[test]
fn html_escape_passthrough() {
    assert_eq!(html_escape("hello world"), "hello world");
}

#[test]
fn html_escape_empty() {
    assert_eq!(html_escape(""), "");
}

#[test]
fn html_escape_output_is_inert() {
    let out = html_escape("<a href=\"x\">'&'</a>");
    assert!(!out.contains('<'));
    assert!(!out.contains('>'));
    assert!(!out.contains('"'));
}

#[test]
fn trim_trailing_spaces_removes_trailing() {
    assert_eq!(trim_trailing_spaces_html("hello   "), "hello");
}

#[test]
fn trim_trailing_spaces_preserves_leading() {
    assert_eq!(trim_trailing_spaces_html("  hello"), "  hello");
}

#[test]
fn trim_trailing_spaces_noop() {
    assert_eq!(trim_trailing_spaces_html("hello"), "hello");
}

#[test]
fn color_to_css_rgb() {
    assert_eq!(color_to_css(Color::Rgb(255, 128, 0)), "#ff8000");
}

#[test]
fn color_to_css_indexed_0() {
    assert_eq!(color_to_css(Color::Indexed(0)), "var(--term-0)");
}

#[test]
fn color_to_css_indexed_15() {
    assert_eq!(color_to_css(Color::Indexed(15)), "var(--term-15)");
}

#[test]
fn color_to_css_indexed_6cube_first() {
    assert_eq!(color_to_css(Color::Indexed(16)), "#000000");
}

#[test]
fn color_to_css_indexed_6cube_red() {
    assert_eq!(color_to_css(Color::Indexed(196)), "#ff0000");
}

#[test]
fn color_to_css_indexed_grayscale_first() {
    assert_eq!(color_to_css(Color::Indexed(232)), "#080808");
}

#[test]
fn color_to_css_indexed_grayscale_last() {
    assert_eq!(color_to_css(Color::Indexed(255)), "#eeeeee");
}

#[test]
fn render_line_plain_text_no_ansi() {
    let line = make_line("hello", 80);
    let result = render_line(&line, false, false);
    assert_eq!(result.text, "hello");
    assert_eq!(result.html, "hello");
}

#[test]
fn render_line_html_escape_no_ansi() {
    let line = make_line("<b>&</b>", 80);
    let result = render_line(&line, false, false);
    assert_eq!(result.html, "&lt;b&gt;&amp;&lt;/b&gt;");
}

#[test]
fn renderer_render_line_bold_ansi() {
    let line = make_line("\x1b[1mBOLD\x1b[0m", 80);
    let result = render_line(&line, true, false);
    assert!(result.html.contains("font-weight:bold"));
    assert!(result.html.contains("BOLD"));
}

#[test]
fn render_line_italic_ansi() {
    let line = make_line("\x1b[3mitalic\x1b[0m", 80);
    let result = render_line(&line, true, false);
    assert!(result.html.contains("font-style:italic"));
}

#[test]
fn render_line_fg_color_indexed() {
    let line = make_line("\x1b[31mred\x1b[0m", 80);
    let result = render_line(&line, true, false);
    assert!(result.html.contains("color:var(--term-1)"));
}

#[test]
fn render_line_fg_color_rgb() {
    let line = make_line("\x1b[38;2;255;128;0morange\x1b[0m", 80);
    let result = render_line(&line, true, false);
    assert!(result.html.contains("color:#ff8000"));
}

#[test]
fn render_line_underline_strikethrough() {
    let line = make_line("\x1b[4;9mboth\x1b[0m", 80);
    let result = render_line(&line, true, false);
    assert!(result.html.contains("text-decoration:underline line-through"));
}

#[test]
fn render_line_inverse() {
    let line = make_line("\x1b[7minv\x1b[0m", 80);
    let result = render_line(&line, true, false);
    assert!(result.html.contains("var(--term-bg"));
    assert!(result.html.contains("var(--term-fg"));
}

#[test]
fn render_line_keeps_trailing_spaces_when_asked() {
    let line = make_line("ab", 4);
    assert_eq!(render_line(&line, false, true).html, "ab  ");
    assert_eq!(render_line(&line, false, false).html, "ab");
}

#[test]
fn render_lines_to_html_empty() {
    let style = HtmlStyle { font_size: None, font_family: None, line_height: None };
    let result = render_lines_to_html(&[], "term-output", &style);
    assert_eq!(result, "");
}

#[test]
fn render_lines_to_html_wraps_correctly() {
    let lines = vec![
        RenderedLine { html: "line1".to_string(), text: "line1".to_string() },
        RenderedLine { html: "line2".to_string(), text: "line2".to_string() },
    ];
    let style = HtmlStyle { font_size: None, font_family: None, line_height: None };
    let result = render_lines_to_html(&lines, "term-output", &style);
    assert!(result.contains("<pre class=\"term-output\">"));
    assert!(result.contains("line1\nline2"));
    assert!(result.contains("</code></pre>"));
}

#[test]
fn render_lines_to_html_with_font_size() {
    let lines = vec![RenderedLine { html: "x".to_string(), text: "x".to_string() }];
    let style = HtmlStyle { font_size: Some("0.8em"), font_family: None, line_height: None };
    let result = render_lines_to_html(&lines, "term-output", &style);
    assert!(result.contains("style=\"font-size:0.8em\""));
}

#[test]
fn render_lines_to_html_with_font_family() {
    let lines = vec![RenderedLine { html: "x".to_string(), text: "x".to_string() }];
    let style = HtmlStyle { font_size: None, font_family: Some("Fira Code"), line_height: None };
    let result = render_lines_to_html(&lines, "term-output", &style);
    assert!(result.contains("style=\"font-family:Fira Code\""));
}

#[test]
fn render_lines_to_html_with_line_height() {
    let lines = vec![RenderedLine { html: "x".to_string(), text: "x".to_string() }];
    let style = HtmlStyle { font_size: None, font_family: None, line_height: Some("1.5") };
    let result = render_lines_to_html(&lines, "term-output", &style);
    assert!(result.contains("style=\"line-height:1.5\""));
}

#[test]
fn render_lines_to_html_with_all_style_fields() {
    let lines = vec![RenderedLine { html: "x".to_string(), text: "x".to_string() }];
    let style = HtmlStyle { font_size: Some("0.8em"), font_family: Some("Fira Code"), line_height: Some("1.4") };
    let result = render_lines_to_html(&lines, "term-output", &style);
    assert!(result.contains("font-size:0.8em"));
    assert!(result.contains("font-family:Fira Code"));
    assert!(result.contains("line-height:1.4"));
}

#[test]
fn render_fullscreen_to_html_uses_screen_class() {
    let lines = vec![RenderedLine { html: "x".to_string(), text: "x".to_string() }];
    let style = HtmlStyle { font_size: None, font_family: None, line_height: None };
    let result = render_fullscreen_to_html(&lines, &style);
    assert!(result.contains("<pre class=\"term-screen\">"));
}

#[test]
fn is_safe_css_value_accepts_normal_values() {
    assert!(is_safe_css_value("0.8em"));
    assert!(is_safe_css_value("Fira Code, monospace"));
    assert!(is_safe_css_value("1.5"));
    assert!(is_safe_css_value("12px"));
}

#[test]
fn is_safe_css_value_rejects_injection() {
    assert!(!is_safe_css_value("\" onmouseover=\"alert(1)"));
    assert!(!is_safe_css_value("'; background: url(evil)"));
    assert!(!is_safe_css_value("12px; color: red"));
    assert!(!is_safe_css_value("x<script>"));
    assert!(!is_safe_css_value("x}body{color:red"));
    assert!(!is_safe_css_value("a\\b"));
}

#[test]
fn is_safe_language_name_accepts_valid() {
    assert!(is_safe_language_name("bash"));
    assert!(is_safe_language_name("c++"));
    assert!(is_safe_language_name("objective-c"));
    assert!(is_safe_language_name("html5"));
    assert!(is_safe_language_name("f.sharp"));
}

#[test]
fn is_safe_language_name_rejects_injection() {
    assert!(!is_safe_language_name("x\" onmouseover=\"alert(1)"));
    assert!(!is_safe_language_name(""));
    assert!(!is_safe_language_name("a b"));
    assert!(!is_safe_language_name("<script>"));
}

#[test]
fn html_style_rejects_unsafe_values() {
    let style = HtmlStyle { font_size: Some("\" onmouseover=\"alert(1)"), font_family: None, line_height: None };
    assert_eq!(style.to_attr(), "");
}

#[test]
fn is_safe_font_name_accepts_valid() {
    assert!(is_safe_font_name("Fira Code"));
    assert!(is_safe_font_name("Courier New"));
    assert!(is_safe_font_name("JetBrains Mono"));
    assert!(is_safe_font_name("SF-Mono"));
}

#[test]
fn is_safe_font_name_rejects_injection() {
    assert!(!is_safe_font_name(""));
    assert!(!is_safe_font_name("font}\\input{/etc/passwd"));
    assert!(!is_safe_font_name("x\"][#read(\"/etc/passwd\")"));
}

#[test]
fn is_safe_hex_color_accepts_valid() {
    assert!(is_safe_hex_color("1a1b26"));
    assert!(is_safe_hex_color("c0caf5"));
    assert!(is_safe_hex_color("#ff0080"));
    assert!(is_safe_hex_color("AABBCC"));
}

#[test]
fn is_safe_hex_color_rejects_invalid() {
    assert!(!is_safe_hex_color(""));
    assert!(!is_safe_hex_color("red"));
    assert!(!is_safe_hex_color("1a1b2"));
    assert!(!is_safe_hex_color("1a1b26ff"));
    assert!(!is_safe_hex_color("\")[#read("));
}

#[test]
fn wrap_prompt_span_counts_visible_characters() {
    assert_eq!(wrap_prompt_span("$ ls", 2), "<span class=\"term-prompt\">$ </span>ls");
    assert_eq!(wrap_prompt_span("&gt; x", 2), "<span class=\"term-prompt\">&gt; </span>x");
    assert_eq!(wrap_prompt_span("<i>a</i>bc", 1), "<span class=\"term-prompt\"><i>a</span></i>bc");
    assert_eq!(wrap_prompt_span("ab", 5), "<span class=\"term-prompt\">ab</span>");
}
