//! The markup of one executed cell: the source listing its echo mode asks
//! for, then the captured output, cleaned up (trailing prompts, spacing,
//! removed and truncated lines, callouts) and rendered in the document's
//! format.
use vstd::prelude::*;
use crate::latex::{
    render_fullscreen_to_latex, render_lines_to_latex, spec_latex_block, spec_render_line_latex,
    LatexTheme,
};
use crate::markdown::{render_fullscreen_to_markdown, render_lines_to_markdown, spec_fenced};
use crate::protocol::{EchoMode, HighlightSpec, LineSpec};
use crate::renderer::{
    is_safe_language_name, render_fullscreen_to_html, render_lines_to_html,
    spec_is_safe_language_name, spec_pre_block, spec_render_line_html, spec_to_attr, HtmlStyle,
    RenderedLine,
};
use crate::screen::{mark_prompts, marked_lines, texts_fit, trim_trailing_prompts, without_trailing_prompts};
use crate::session::{
    all_selected, apply_callouts, apply_remove, apply_spacing, apply_truncate, html_escape_basic,
    kept, line_texts, lines_view, spaced_upto, spec_basic_escape, spec_hits, truncated_upto,
    with_callouts, LineView,
};
use crate::terminal_line::{spec_line_text, TermCell};
use crate::text::str_chars;
use crate::typst::{
    render_fullscreen_to_typst, render_lines_to_typst, spec_render_line_typst, spec_typst_block,
    TypstTheme,
};

verus! {

/// The settings, resolved from the cell's options and the session's
/// configuration, that shape a cell's markup. `typst_size` and
/// `typst_leading` are the font size and the line spacing already written
/// in Typst units; the prefix patterns find the prompts that HTML output
/// marks.
pub struct CellRender<'a> {
    pub format: &'a str,
    pub code: &'a str,
    pub echo: &'a EchoMode,
    pub highlight: &'a HighlightSpec,
    pub output: bool,
    pub fullscreen: bool,
    pub keep_last_prompt: bool,
    pub spacing: bool,
    pub prompt: &'a str,
    pub prompt_pattern: &'a str,
    pub prompt_prefix_pattern: &'a str,
    pub ps2_prefix_pattern: Option<&'a str>,
    pub remove: &'a [LineSpec],
    pub truncate: &'a [LineSpec],
    pub callouts: &'a [LineSpec],
    pub font_size: Option<&'a str>,
    pub font_family: Option<&'a str>,
    pub line_height: Option<&'a str>,
    pub theme_bg: Option<&'a str>,
    pub theme_fg: Option<&'a str>,
    pub typst_size: Option<&'a str>,
    pub typst_leading: Option<&'a str>,
}

/// `latex`.
pub open spec fn latex_name() -> Seq<char> {
    seq!['l', 'a', 't', 'e', 'x']
}

/// `typst`.
pub open spec fn typst_name() -> Seq<char> {
    seq!['t', 'y', 'p', 's', 't']
}

/// `markdown`.
pub open spec fn markdown_name() -> Seq<char> {
    seq!['m', 'a', 'r', 'k', 'd', 'o', 'w', 'n']
}

/// The HTML style of the cell's blocks.
pub open spec fn cell_style(r: CellRender) -> HtmlStyle {
    HtmlStyle { font_size: r.font_size, font_family: r.font_family, line_height: r.line_height }
}

/// The language class of an HTML source listing: a safe language name as
/// it is, `text` for any other name or for no highlighting, `bash` for
/// highlighting without a name.
pub open spec fn spec_highlight_lang(h: HighlightSpec) -> Seq<char> {
    match h {
        HighlightSpec::Language(l) => if spec_is_safe_language_name(l@) {
            l@
        } else {
            "text"@
        },
        HighlightSpec::Bool(b) => if b {
            "bash"@
        } else {
            "text"@
        },
    }
}

/// The cell's source as a listing in the document's format.
pub open spec fn spec_source_listing(r: CellRender) -> Seq<char> {
    if r.format@ == latex_name() {
        "\\begin{verbatim}\n"@ + r.code@ + "\n\\end{verbatim}\n"@
    } else if r.format@ == markdown_name() {
        "```bash\n"@ + r.code@ + "\n```\n"@
    } else {
        "<pre class=\"term-source\""@ + spec_to_attr(cell_style(r)) + "><code class=\"language-"@
            + spec_highlight_lang(*r.highlight) + "\">"@ + spec_basic_escape(r.code@) + "</code></pre>\n"@
    }
}

/// What the echo mode puts before the output: the source listing for the
/// `source` mode, nothing otherwise (in the `terminal` mode the typed
/// command shows in the output).
pub open spec fn spec_echo_source(r: CellRender) -> Seq<char> {
    match *r.echo {
        EchoMode::Mode(m) => if m@ == seq!['s', 'o', 'u', 'r', 'c', 'e'] {
            spec_source_listing(r)
        } else {
            Seq::empty()
        },
        EchoMode::Bool(_) => Seq::empty(),
    }
}

/// Whether the output is shown: when asked for, or when the echo mode is
/// the terminal itself (`terminal` or `true`).
pub open spec fn spec_shows_output(r: CellRender) -> bool {
    ||| r.output
    ||| (*r.echo matches EchoMode::Mode(m) && m@ == seq!['t', 'e', 'r', 'm', 'i', 'n', 'a', 'l'])
    ||| *r.echo == EchoMode::Bool(true)
}

/// The text of each line.
pub open spec fn view_texts(ls: Seq<LineView>) -> Seq<Seq<char>> {
    ls.map_values(|l: LineView| l.1)
}

/// What each selector's pattern finds in the lines.
pub open spec fn hits_for(specs: Seq<LineSpec>, ls: Seq<LineView>) -> Seq<Option<Seq<bool>>> {
    Seq::new(specs.len() as nat, |k: int| spec_hits(specs[k], view_texts(ls)))
}

/// The lines without those the selectors pick.
pub open spec fn removed(ls: Seq<LineView>, specs: Seq<LineSpec>) -> Seq<LineView> {
    kept(ls, all_selected(specs, hits_for(specs, ls), ls.len() as int))
}

/// The lines with each run of picked lines replaced by a notice.
pub open spec fn truncated(ls: Seq<LineView>, specs: Seq<LineSpec>, format: Seq<char>) -> Seq<
    LineView,
> {
    truncated_upto(
        ls,
        all_selected(specs, hits_for(specs, ls), ls.len() as int),
        format,
        ls.len() as int,
    )
}

/// The lines with the callout markers appended.
pub open spec fn called_out(ls: Seq<LineView>, specs: Seq<LineSpec>) -> Seq<LineView> {
    with_callouts(ls, specs, hits_for(specs, ls))
}

/// The captured lines after the clean-up steps, in order: trailing empty
/// or prompt-only lines dropped (unless the last prompt is kept), a blank
/// line before each later command (with spacing, outside full-screen
/// captures), picked lines removed, runs of picked lines truncated, and
/// callouts appended.
pub open spec fn spec_processed_lines(r: CellRender, ls: Seq<LineView>) -> Seq<LineView> {
    let a = if r.keep_last_prompt {
        ls
    } else {
        without_trailing_prompts(ls, r.prompt_pattern@)
    };
    let b = if r.spacing && !r.fullscreen {
        spaced_upto(a, r.prompt@ + " "@, a.len() as int)
    } else {
        a
    };
    let c = removed(b, r.remove@);
    let d = truncated(c, r.truncate@, r.format@);
    called_out(d, r.callouts@)
}

/// Output in any format other than LaTeX, Typst and Markdown is HTML.
pub open spec fn is_html_format(f: Seq<char>) -> bool {
    f != latex_name() && f != typst_name() && f != markdown_name()
}

/// The lines a cell renders: the processed lines, with their prompts
/// marked in HTML output.
pub open spec fn spec_output_lines(r: CellRender, ls: Seq<LineView>) -> Seq<LineView> {
    let p = spec_processed_lines(r, ls);
    if is_html_format(r.format@) {
        marked_lines(
            p,
            r.prompt_prefix_pattern@,
            match r.ps2_prefix_pattern {
                Some(x) => Some(x@),
                None => None,
            },
        )
    } else {
        p
    }
}

/// The rendered output block in the document's format (for Typst, with
/// the sizes already in Typst units).
pub open spec fn spec_render_output(r: CellRender, ls: Seq<RenderedLine>) -> Seq<char> {
    if r.format@ == latex_name() {
        spec_latex_block(
            ls,
            LatexTheme {
                bg: r.theme_bg,
                fg: r.theme_fg,
                font_size: r.font_size,
                font_family: r.font_family,
                line_height: r.line_height,
            },
        )
    } else if r.format@ == typst_name() {
        spec_typst_block(
            ls,
            TypstTheme {
                bg: r.theme_bg,
                fg: r.theme_fg,
                size: r.typst_size,
                font_family: r.font_family,
                leading: r.typst_leading,
            },
        )
    } else if r.format@ == markdown_name() {
        spec_fenced(
            ls,
            if r.fullscreen {
                "text"@
            } else {
                "console"@
            },
        )
    } else {
        spec_pre_block(
            ls,
            if r.fullscreen {
                "term-screen"@
            } else {
                "term-output"@
            },
            cell_style(r),
        )
    }
}

/// A cell's markup: the echoed source, then, when output is shown, the
/// rendering of the processed lines.
pub open spec fn spec_cell_html(r: CellRender, ls: Seq<RenderedLine>) -> Seq<char> {
    spec_echo_source(r) + if spec_shows_output(r) {
        spec_render_output(r, ls)
    } else {
        Seq::empty()
    }
}

fn is_format(format: &str, name: &[char]) -> (b: bool)
    ensures
        b == (format@ == name@),
{
    let f = str_chars(format);
    crate::keymap::eq_chars(&f, name)
}

/// Whether the cell's output is shown.
pub fn shows_output(r: &CellRender) -> (b: bool)
    ensures
        b == spec_shows_output(*r),
{
    if r.output {
        return true;
    }
    match r.echo {
        EchoMode::Mode(m) => {
            let v = str_chars(m.as_str());
            crate::keymap::eq_chars(&v, &['t', 'e', 'r', 'm', 'i', 'n', 'a', 'l'])
        },
        EchoMode::Bool(b) => *b,
    }
}

fn highlight_lang(h: &HighlightSpec) -> (r: String)
    ensures
        r@ == spec_highlight_lang(*h),
{
    match h {
        HighlightSpec::Language(l) => if is_safe_language_name(l.as_str()) {
            l.clone()
        } else {
            "text".to_owned()
        },
        HighlightSpec::Bool(b) => if *b {
            "bash".to_owned()
        } else {
            "text".to_owned()
        },
    }
}

fn source_listing(r: &CellRender) -> (s: String)
    ensures
        s@ == spec_source_listing(*r),
{
    let mut s = String::new();
    if is_format(r.format, &['l', 'a', 't', 'e', 'x']) {
        s.append("\\begin{verbatim}\n");
        s.append(r.code);
        s.append("\n\\end{verbatim}\n");
    } else if is_format(r.format, &['m', 'a', 'r', 'k', 'd', 'o', 'w', 'n']) {
        s.append("```bash\n");
        s.append(r.code);
        s.append("\n```\n");
    } else {
        let style = HtmlStyle {
            font_size: r.font_size,
            font_family: r.font_family,
            line_height: r.line_height,
        };
        s.append("<pre class=\"term-source\"");
        let attr = style.to_attr();
        s.append(attr.as_str());
        s.append("><code class=\"language-");
        let lang = highlight_lang(r.highlight);
        s.append(lang.as_str());
        s.append("\">");
        let body = html_escape_basic(r.code);
        s.append(body.as_str());
        s.append("</code></pre>\n");
    }
    s
}

/// The source listing the echo mode asks for, if any.
pub fn echo_source(r: &CellRender) -> (s: String)
    ensures
        s@ == spec_echo_source(*r),
{
    match r.echo {
        EchoMode::Mode(m) => {
            let v = str_chars(m.as_str());
            if crate::keymap::eq_chars(&v, &['s', 'o', 'u', 'r', 'c', 'e']) {
                source_listing(r)
            } else {
                String::new()
            }
        },
        EchoMode::Bool(_) => String::new(),
    }
}

proof fn lemma_texts(ls: Seq<RenderedLine>)
    ensures
        line_texts(ls) == view_texts(lines_view(ls)),
{
    assert(line_texts(ls) =~= view_texts(lines_view(ls)));
}

proof fn lemma_kept_len(ls: Seq<LineView>, drop: Seq<usize>)
    ensures
        kept(ls, drop).len() <= ls.len(),
    decreases ls.len(),
{
    if ls.len() > 0 {
        lemma_kept_len(ls.drop_last(), drop);
    }
}

proof fn lemma_spaced_len(ls: Seq<LineView>, prefix: Seq<char>, m: int)
    requires
        0 <= m <= ls.len(),
    ensures
        spaced_upto(ls, prefix, m).len() <= 2 * m,
    decreases m,
{
    if m > 0 {
        lemma_spaced_len(ls, prefix, m - 1);
    }
}

proof fn lemma_trailing_len(ls: Seq<LineView>, p: Seq<char>)
    ensures
        without_trailing_prompts(ls, p).len() <= ls.len(),
    decreases ls.len(),
{
    if ls.len() > 0 {
        lemma_trailing_len(ls.drop_last(), p);
    }
}

proof fn lemma_truncated_len(ls: Seq<LineView>, drop: Seq<usize>, format: Seq<char>, m: int)
    requires
        0 <= m,
    ensures
        truncated_upto(ls, drop, format, m).len() <= m,
    decreases m,
{
    if m > 0 {
        lemma_truncated_len(ls, drop, format, m - 1);
    }
}

/// Applies the clean-up steps to the captured lines.
pub fn process_lines(r: &CellRender, lines: &mut Vec<RenderedLine>)
    requires
        old(lines).len() <= 0x3fff_ffff,
        texts_fit(old(lines)@),
        r.callouts.len() < u64::MAX,
    ensures
        lines_view(final(lines)@) == spec_processed_lines(*r, lines_view(old(lines)@)),
{
    let ghost ls = lines_view(lines@);
    if !r.keep_last_prompt {
        trim_trailing_prompts(lines, r.prompt_pattern);
        proof {
            lemma_trailing_len(ls, r.prompt_pattern@);
        }
    }
    let ghost a = lines_view(lines@);
    assert(a.len() <= ls.len());
    if r.spacing && !r.fullscreen {
        apply_spacing(lines, r.prompt);
        proof {
            lemma_spaced_len(a, r.prompt@ + " "@, a.len() as int);
        }
    }
    let ghost b = lines_view(lines@);
    assert(b.len() <= 2 * ls.len());
    proof {
        lemma_texts(lines@);
    }
    apply_remove(lines, r.remove);
    proof {
        assert(Seq::new(
            r.remove@.len() as nat,
            |k: int| spec_hits(r.remove@[k], view_texts(b)),
        ) =~= hits_for(r.remove@, b));
        lemma_kept_len(b, all_selected(r.remove@, hits_for(r.remove@, b), b.len() as int));
    }
    let ghost c = lines_view(lines@);
    assert(c == removed(b, r.remove@));
    proof {
        lemma_texts(lines@);
    }
    apply_truncate(lines, r.truncate, r.format);
    proof {
        assert(Seq::new(
            r.truncate@.len() as nat,
            |k: int| spec_hits(r.truncate@[k], view_texts(c)),
        ) =~= hits_for(r.truncate@, c));
        lemma_truncated_len(
            c,
            all_selected(r.truncate@, hits_for(r.truncate@, c), c.len() as int),
            r.format@,
            c.len() as int,
        );
    }
    let ghost d = lines_view(lines@);
    assert(d == truncated(c, r.truncate@, r.format@));
    proof {
        lemma_texts(lines@);
    }
    apply_callouts(lines, r.callouts);
    proof {
        assert(Seq::new(
            r.callouts@.len() as nat,
            |k: int| spec_hits(r.callouts@[k], view_texts(d)),
        ) =~= hits_for(r.callouts@, d));
    }
}

/// Renders the processed lines in the document's format.
pub fn render_output(r: &CellRender, lines: &[RenderedLine]) -> (s: String)
    ensures
        s@ == spec_render_output(*r, lines@),
{
    if is_format(r.format, &['l', 'a', 't', 'e', 'x']) {
        let theme = LatexTheme {
            bg: r.theme_bg,
            fg: r.theme_fg,
            font_size: r.font_size,
            font_family: r.font_family,
            line_height: r.line_height,
        };
        if r.fullscreen {
            render_fullscreen_to_latex(lines, &theme)
        } else {
            render_lines_to_latex(lines, &theme)
        }
    } else if is_format(r.format, &['t', 'y', 'p', 's', 't']) {
        let theme = TypstTheme {
            bg: r.theme_bg,
            fg: r.theme_fg,
            size: r.typst_size,
            font_family: r.font_family,
            leading: r.typst_leading,
        };
        if r.fullscreen {
            render_fullscreen_to_typst(lines, &theme)
        } else {
            render_lines_to_typst(lines, &theme)
        }
    } else if is_format(r.format, &['m', 'a', 'r', 'k', 'd', 'o', 'w', 'n']) {
        if r.fullscreen {
            render_fullscreen_to_markdown(lines)
        } else {
            render_lines_to_markdown(lines)
        }
    } else {
        let style = HtmlStyle {
            font_size: r.font_size,
            font_family: r.font_family,
            line_height: r.line_height,
        };
        if r.fullscreen {
            render_fullscreen_to_html(lines, &style)
        } else {
            render_lines_to_html(lines, "term-output", &style)
        }
    }
}

/// Renders one captured terminal line for the document's format: LaTeX
/// and Typst markup for those formats, HTML for any other.
pub fn render_line_for_format(
    line: &[TermCell],
    ansi: bool,
    trailing_spaces: bool,
    format: &str,
) -> (r: RenderedLine)
    ensures
        r.text@ == spec_line_text(line@),
        r.html@ == if format@ == latex_name() {
            spec_render_line_latex(line@, ansi, trailing_spaces)
        } else if format@ == typst_name() {
            spec_render_line_typst(line@, ansi, trailing_spaces)
        } else {
            spec_render_line_html(line@, ansi, trailing_spaces)
        },
{
    if is_format(format, &['l', 'a', 't', 'e', 'x']) {
        crate::latex::render_line(line, ansi, trailing_spaces)
    } else if is_format(format, &['t', 'y', 'p', 's', 't']) {
        crate::typst::render_line(line, ansi, trailing_spaces)
    } else {
        crate::renderer::render_line(line, ansi, trailing_spaces)
    }
}

/// Builds a cell's markup from the lines captured for it. The lines are
/// processed in place (and, for HTML, their prompts marked) when the
/// output is shown, and left alone otherwise.
pub fn build_cell_html(r: &CellRender, lines: &mut Vec<RenderedLine>) -> (out: String)
    requires
        old(lines).len() <= 0x3fff_ffff,
        texts_fit(old(lines)@),
        r.callouts.len() < u64::MAX,
    ensures
        lines_view(final(lines)@) == if spec_shows_output(*r) {
            spec_output_lines(*r, lines_view(old(lines)@))
        } else {
            lines_view(old(lines)@)
        },
        out@ == spec_cell_html(*r, final(lines)@),
{
    let mut out = echo_source(r);
    if shows_output(r) {
        process_lines(r, lines);
        if !is_format(r.format, &['l', 'a', 't', 'e', 'x']) && !is_format(r.format, &['t', 'y', 'p', 's', 't'])
            && !is_format(r.format, &['m', 'a', 'r', 'k', 'd', 'o', 'w', 'n']) {
            mark_prompts(lines, r.prompt_prefix_pattern, r.ps2_prefix_pattern);
        }
        let block = render_output(r, lines.as_slice());
        out.append(block.as_str());
    }
    out
}

/// A cell with `echo: false` and `output: false` leaves nothing in the
/// document.
pub proof fn law_hidden_cell_is_empty(r: CellRender, ls: Seq<RenderedLine>)
    requires
        *r.echo == EchoMode::Bool(false),
        !r.output,
    ensures
        spec_cell_html(r, ls) == Seq::<char>::empty(),
{
    assert(spec_cell_html(r, ls) =~= Seq::<char>::empty());
}

} // verus!
