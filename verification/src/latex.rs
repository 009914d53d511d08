//! LaTeX rendering: `Verbatim` blocks with `commandchars` inside a
//! `tcolorbox`.
use vstd::prelude::*;
use crate::color::{color_to_hex, spec_color_to_hex};
use crate::keymap::eq_chars;
use crate::renderer::{html_views, join_lines, RenderedLine};
use crate::terminal_line::{
    line_to_text, line_to_text_raw, pen_is_default, runs_view, spec_line_text, spec_line_text_raw,
    spec_styled_runs, styled_runs, Pen, TermCell,
};
use crate::text::{
    chars_to_string, css_font_name, flat_map, font_name, join, lemma_flat_map_take,
    lemma_take_full, parses_as_float, push_char, str_chars, trim_chars, trim_end_seq,
    trim_end_str, trim_seq, is_float_literal,
};

verus! {

/// What LaTeX (with `commandchars=\\\{\}`) makes of one character.
pub open spec fn latex_char_esc(c: char) -> Seq<char> {
    if c == '\\' {
        "\\textbackslash{}"@
    } else if c == '{' {
        "\\{"@
    } else if c == '}' {
        "\\}"@
    } else {
        seq![c]
    }
}

/// LaTeX escaping of backslashes and braces.
pub open spec fn spec_latex_escape(s: Seq<char>) -> Seq<char> {
    flat_map(s, |c: char| latex_char_esc(c))
}

/// Escapes backslashes and braces for a `Verbatim` block with command
/// characters.
pub fn latex_escape(s: &str) -> (r: String)
    ensures
        r@ == spec_latex_escape(s@),
{
    let v = str_chars(s);
    let mut out = String::new();
    let mut i: usize = 0;
    while i < v.len()
        invariant
            i <= v.len(),
            out@ == spec_latex_escape(v@.take(i as int)),
        decreases v.len() - i,
    {
        let c = v[i];
        proof {
            lemma_flat_map_take(v@, |c: char| latex_char_esc(c), i as int);
        }
        if c == '\\' {
            out.append("\\textbackslash{}");
        } else if c == '{' {
            out.append("\\{");
        } else if c == '}' {
            out.append("\\}");
        } else {
            push_char(&mut out, c);
        }
        i += 1;
    }
    proof {
        lemma_take_full(v@);
    }
    out
}

/// Colors, fonts and spacing for the LaTeX output.
pub struct LatexTheme<'a> {
    pub bg: Option<&'a str>,
    pub fg: Option<&'a str>,
    pub font_size: Option<&'a str>,
    pub font_family: Option<&'a str>,
    pub line_height: Option<&'a str>,
}

/// The `tcolorbox` options: themed colors when the theme sets them.
pub open spec fn spec_tcolorbox_opts(has_bg: bool, has_fg: bool) -> Seq<char> {
    "colback="@ + (if has_bg {
        "termbg"@
    } else {
        "black!5!white"@
    }) + ",colframe="@ + (if has_bg {
        "termbg!80!black"@
    } else {
        "black!50!white"@
    }) + ",colupper="@ + (if has_fg {
        "termfg"@
    } else {
        "black"@
    }) + ",boxrule=0.5pt,arc=3pt,left=6pt,right=6pt,top=4pt,bottom=4pt"@
}

/// The `tcolorbox` options for a theme's background and foreground.
pub fn tcolorbox_opts(bg: Option<&str>, fg: Option<&str>) -> (r: String)
    ensures
        r@ == spec_tcolorbox_opts(bg is Some, fg is Some),
{
    let mut r = String::new();
    r.append("colback=");
    r.append(if bg.is_some() { "termbg" } else { "black!5!white" });
    r.append(",colframe=");
    r.append(if bg.is_some() { "termbg!80!black" } else { "black!50!white" });
    r.append(",colupper=");
    r.append(if fg.is_some() { "termfg" } else { "black" });
    r.append(",boxrule=0.5pt,arc=3pt,left=6pt,right=6pt,top=4pt,bottom=4pt");
    r
}

/// The LaTeX size command for a CSS font size (`\small` for sizes it does
/// not know), followed by a newline; nothing without a size.
pub open spec fn spec_css_fontsize_to_latex(fs: Option<Seq<char>>) -> Seq<char> {
    match fs {
        None => Seq::empty(),
        Some(s) => {
            let cmd = if s == seq!['0', '.', '6', 'e', 'm'] || s == seq!['5', 'p', 't'] || s
                == seq!['6', 'p', 't'] {
                "\\tiny"@
            } else if s == seq!['0', '.', '7', 'e', 'm'] || s == seq!['7', 'p', 't'] || s
                == seq!['8', 'p', 't'] {
                "\\scriptsize"@
            } else if s == seq!['0', '.', '7', '5', 'e', 'm'] || s == seq!['9', 'p', 't'] {
                "\\footnotesize"@
            } else if s == seq!['0', '.', '8', 'e', 'm'] || s == seq!['0', '.', '8', '5', 'e', 'm']
                || s == seq!['1', '0', 'p', 't'] {
                "\\small"@
            } else if s == seq!['1', 'e', 'm'] || s == seq!['1', '1', 'p', 't'] || s == seq![
                '1',
                '2',
                'p',
                't',
            ] {
                "\\normalsize"@
            } else if s == seq!['1', '.', '1', 'e', 'm'] || s == seq!['1', '.', '2', 'e', 'm'] || s
                == seq!['1', '4', 'p', 't'] {
                "\\large"@
            } else {
                "\\small"@
            };
            cmd + "\n"@
        },
    }
}

/// A CSS font size as a LaTeX size command line.
pub fn css_fontsize_to_latex(fontsize: Option<&str>) -> (r: String)
    ensures
        r@ == spec_css_fontsize_to_latex(
            match fontsize {
                Some(s) => Some(s@),
                None => None,
            },
        ),
{
    match fontsize {
        None => String::new(),
        Some(s) => {
            let v = str_chars(s);
            let cmd = if eq_chars(&v, &['0', '.', '6', 'e', 'm']) || eq_chars(&v, &['5', 'p', 't'])
                || eq_chars(&v, &['6', 'p', 't']) {
                "\\tiny"
            } else if eq_chars(&v, &['0', '.', '7', 'e', 'm']) || eq_chars(&v, &['7', 'p', 't'])
                || eq_chars(&v, &['8', 'p', 't']) {
                "\\scriptsize"
            } else if eq_chars(&v, &['0', '.', '7', '5', 'e', 'm']) || eq_chars(
                &v,
                &['9', 'p', 't'],
            ) {
                "\\footnotesize"
            } else if eq_chars(&v, &['0', '.', '8', 'e', 'm']) || eq_chars(
                &v,
                &['0', '.', '8', '5', 'e', 'm'],
            ) || eq_chars(&v, &['1', '0', 'p', 't']) {
                "\\small"
            } else if eq_chars(&v, &['1', 'e', 'm']) || eq_chars(&v, &['1', '1', 'p', 't'])
                || eq_chars(&v, &['1', '2', 'p', 't']) {
                "\\normalsize"
            } else if eq_chars(&v, &['1', '.', '1', 'e', 'm']) || eq_chars(
                &v,
                &['1', '.', '2', 'e', 'm'],
            ) || eq_chars(&v, &['1', '4', 'p', 't']) {
                "\\large"
            } else {
                "\\small"
            };
            let mut r = String::new();
            r.append(cmd);
            r.append("\n");
            r
        },
    }
}

/// A line height, trimmed, if it reads as a number.
pub open spec fn spec_parse_line_height(s: Seq<char>) -> Option<Seq<char>> {
    if is_float_literal(trim_seq(s)) {
        Some(trim_seq(s))
    } else {
        None
    }
}

/// The trimmed line height when it reads as a number (`f64` syntax).
pub fn parse_line_height(s: &str) -> (r: Option<String>)
    ensures
        match spec_parse_line_height(s@) {
            Some(v) => r matches Some(x) && x@ == v,
            None => r is None,
        },
{
    let t = trim_chars(&str_chars(s));
    if parses_as_float(&t) {
        Some(chars_to_string(&t))
    } else {
        None
    }
}

/// The lines before the `Verbatim` block: line spacing, monospace font,
/// and size.
pub open spec fn spec_latex_preamble(t: LatexTheme) -> Seq<char> {
    let lh = match t.line_height {
        Some(l) => match spec_parse_line_height(l@) {
            Some(v) => "\\linespread{"@ + v + "}\\selectfont\n"@,
            None => Seq::empty(),
        },
        None => Seq::empty(),
    };
    let font = match t.font_family {
        Some(f) => "\\setmonofont{"@ + css_font_name(f@) + "}\n"@,
        None => Seq::empty(),
    };
    let size = spec_css_fontsize_to_latex(
        match t.font_size {
            Some(s) => Some(s@),
            None => None,
        },
    );
    lh + font + size
}

/// The preamble of a LaTeX block.
pub fn latex_preamble(theme: &LatexTheme) -> (r: String)
    ensures
        r@ == spec_latex_preamble(*theme),
{
    let mut r = String::new();
    if let Some(lh) = theme.line_height {
        if let Some(val) = parse_line_height(lh) {
            r.append("\\linespread{");
            r.append(val.as_str());
            r.append("}\\selectfont\n");
        }
    }
    if let Some(font) = theme.font_family {
        let name = font_name(font);
        r.append("\\setmonofont{");
        r.append(name.as_str());
        r.append("}\n");
    }
    let size = css_fontsize_to_latex(theme.font_size);
    r.append(size.as_str());
    r
}

/// A `tcolorbox` holding a `Verbatim` block of the lines' markup; nothing
/// for no lines.
pub open spec fn spec_latex_block(lines: Seq<RenderedLine>, t: LatexTheme) -> Seq<char> {
    if lines.len() == 0 {
        Seq::empty()
    } else {
        "\\begin{tcolorbox}["@ + spec_tcolorbox_opts(t.bg is Some, t.fg is Some) + "]\n"@
            + spec_latex_preamble(t)
            + "\\begin{Verbatim}[commandchars=\\\\\\{\\},breaklines=true]\n"@ + join(
            html_views(lines),
            "\n"@,
        ) + "\n\\end{Verbatim}\n\\end{tcolorbox}\n"@
    }
}

/// Renders lines as a LaTeX block.
pub fn render_lines_to_latex(lines: &[RenderedLine], theme: &LatexTheme) -> (r: String)
    ensures
        r@ == spec_latex_block(lines@, *theme),
{
    if lines.len() == 0 {
        return String::new();
    }
    let inner = join_lines(lines, false, "\n");
    let preamble = latex_preamble(theme);
    let box_opts = tcolorbox_opts(theme.bg, theme.fg);
    let mut r = String::new();
    r.append("\\begin{tcolorbox}[");
    r.append(box_opts.as_str());
    r.append("]\n");
    r.append(preamble.as_str());
    r.append("\\begin{Verbatim}[commandchars=\\\\\\{\\},breaklines=true]\n");
    r.append(inner.as_str());
    r.append("\n\\end{Verbatim}\n\\end{tcolorbox}\n");
    r
}

/// Renders a captured screen as a LaTeX block (the same block as for
/// lines).
pub fn render_fullscreen_to_latex(lines: &[RenderedLine], theme: &LatexTheme) -> (r: String)
    ensures
        r@ == spec_latex_block(lines@, *theme),
{
    render_lines_to_latex(lines, theme)
}


/// LaTeX text wrapped in a pen's color (the background under inverse
/// video), then bold, italic and underline commands.
pub open spec fn spec_latex_wrap(text: Seq<char>, p: Pen) -> Seq<char> {
    let fg = if p.inverse { p.background } else { p.foreground };
    let r1 = match fg {
        Some(c) => "\\textcolor[HTML]{"@ + spec_color_to_hex(c) + "}{"@ + text + "}"@,
        None => text,
    };
    let r2 = if p.bold { "\\textbf{"@ + r1 + "}"@ } else { r1 };
    let r3 = if p.italic { "\\textit{"@ + r2 + "}"@ } else { r2 };
    if p.underline { "\\underline{"@ + r3 + "}"@ } else { r3 }
}

fn wrap(prefix: &str, body: String, suffix: &str) -> (r: String)
    ensures
        r@ == prefix@ + body@ + suffix@,
{
    let mut r = String::new();
    r.append(prefix);
    r.append(body.as_str());
    r.append(suffix);
    r
}

/// Wraps escaped text in the commands of a pen.
pub fn wrap_with_pen(text: String, pen: &Pen) -> (r: String)
    ensures
        r@ == spec_latex_wrap(text@, *pen),
{
    let fg = if pen.inverse { pen.background } else { pen.foreground };
    let mut result = text;
    if let Some(color) = fg {
        let hex = color_to_hex(color);
        let mut r = String::new();
        r.append("\\textcolor[HTML]{");
        r.append(hex.as_str());
        r.append("}{");
        r.append(result.as_str());
        r.append("}");
        result = r;
    }
    if pen.bold {
        result = wrap("\\textbf{", result, "}");
    }
    if pen.italic {
        result = wrap("\\textit{", result, "}");
    }
    if pen.underline {
        result = wrap("\\underline{", result, "}");
    }
    result
}

/// The LaTeX of one style run.
pub open spec fn latex_run(run: (Seq<char>, Pen)) -> Seq<char> {
    let esc = spec_latex_escape(run.0);
    if pen_is_default(run.1) {
        esc
    } else {
        spec_latex_wrap(esc, run.1)
    }
}

/// The LaTeX of a line: escaped text, with ANSI styling as commands when
/// `ansi` holds, and trailing whitespace removed unless `trailing` holds.
pub open spec fn spec_render_line_latex(cells: Seq<TermCell>, ansi: bool, trailing: bool) -> Seq<
    char,
> {
    if !ansi {
        spec_latex_escape(
            if trailing {
                spec_line_text_raw(cells)
            } else {
                spec_line_text(cells)
            },
        )
    } else {
        let h = flat_map(spec_styled_runs(cells), |r: (Seq<char>, Pen)| latex_run(r));
        if trailing {
            h
        } else {
            trim_end_seq(h)
        }
    }
}

/// Renders one terminal line to LaTeX (the markup goes to `html`).
pub fn render_line(line: &[TermCell], ansi: bool, trailing_spaces: bool) -> (r: RenderedLine)
    ensures
        r.text@ == spec_line_text(line@),
        r.html@ == spec_render_line_latex(line@, ansi, trailing_spaces),
{
    let text = line_to_text(line);
    if !ansi {
        let html = if trailing_spaces {
            latex_escape(line_to_text_raw(line).as_str())
        } else {
            latex_escape(text.as_str())
        };
        return RenderedLine { html, text };
    }
    let (runs, pens) = styled_runs(line);
    let ghost rv = spec_styled_runs(line@);
    let mut latex = String::new();
    let mut k: usize = 0;
    while k < runs.len()
        invariant
            k <= runs.len(),
            runs.len() == pens.len(),
            rv == runs_view(runs@, pens@),
            forall|m: int|
                0 <= m < runs.len() ==> (#[trigger] runs@[m]).pen_idx == m
                    && runs@[m].is_default == pen_is_default(pens@[m]),
            latex@ == flat_map(rv.take(k as int), |r: (Seq<char>, Pen)| latex_run(r)),
        decreases runs.len() - k,
    {
        proof {
            lemma_flat_map_take(rv, |r: (Seq<char>, Pen)| latex_run(r), k as int);
        }
        let run = &runs[k];
        let esc = latex_escape(run.text.as_str());
        if run.is_default {
            latex.append(esc.as_str());
        } else {
            let wrapped = wrap_with_pen(esc, &pens[run.pen_idx]);
            latex.append(wrapped.as_str());
        }
        k += 1;
    }
    proof {
        lemma_take_full(rv);
    }
    let latex = if trailing_spaces {
        latex
    } else {
        trim_end_str(latex.as_str())
    };
    RenderedLine { html: latex, text }
}

/// Each attribute of a pen adds its own command around the text: turning
/// on bold adds `\textbf{...}` right around the (colored) text, turning on
/// italic adds `\textit{...}` around that, and underline adds
/// `\underline{...}` outermost; a pen with no color and no attribute
/// leaves the text as it is.
pub proof fn law_latex_commands(text: Seq<char>, p: Pen)
    ensures
        (if p.inverse { p.background } else { p.foreground }) is None && !p.bold && !p.italic
            && !p.underline ==> spec_latex_wrap(text, p) == text,
        !p.bold && !p.italic && !p.underline ==> spec_latex_wrap(text, (Pen { bold: true, ..p }))
            == seq!['\\', 't', 'e', 'x', 't', 'b', 'f', '{'] + spec_latex_wrap(text, p) + seq!['}'],
        !p.italic && !p.underline ==> spec_latex_wrap(text, (Pen { italic: true, ..p })) == seq![
            '\\',
            't',
            'e',
            'x',
            't',
            'i',
            't',
            '{',
        ] + spec_latex_wrap(text, p) + seq!['}'],
        !p.underline ==> spec_latex_wrap(text, (Pen { underline: true, ..p })) == seq![
            '\\',
            'u',
            'n',
            'd',
            'e',
            'r',
            'l',
            'i',
            'n',
            'e',
            '{',
        ] + spec_latex_wrap(text, p) + seq!['}'],
{
    reveal_strlit("\\textbf{");
    reveal_strlit("\\textit{");
    reveal_strlit("\\underline{");
    reveal_strlit("}");
    assert("\\textbf{"@ =~= seq!['\\', 't', 'e', 'x', 't', 'b', 'f', '{']);
    assert("\\textit{"@ =~= seq!['\\', 't', 'e', 'x', 't', 'i', 't', '{']);
    assert("\\underline{"@ =~= seq!['\\', 'u', 'n', 'd', 'e', 'r', 'l', 'i', 'n', 'e', '{']);
    assert("}"@ =~= seq!['}']);
}

} // verus!
