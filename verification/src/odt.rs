//! OpenDocument (odt) rendering: preformatted paragraphs of text spans.
use vstd::prelude::*;
use crate::color::{color_to_hex, spec_color_to_hex};
use crate::docx::xml_escape;
use crate::renderer::{spec_html_escape, RenderedLine};
use crate::terminal_line::{
    line_to_text, line_to_text_raw, pen_is_default, runs_view, spec_line_text, spec_line_text_raw,
    spec_styled_runs, styled_runs, Pen, TermCell,
};
use crate::text::{flat_map, lemma_flat_map_take, lemma_take_full};

verus! {

/// One preformatted paragraph per line (empty lines as empty elements).
pub open spec fn odt_paragraph(l: RenderedLine) -> Seq<char> {
    if l.html@.len() == 0 {
        "<text:p text:style-name=\"Preformatted_20_Text\"/>"@
    } else {
        "<text:p text:style-name=\"Preformatted_20_Text\">"@ + l.html@ + "</text:p>"@
    }
}

/// Renders lines as preformatted paragraphs; nothing for no lines.
pub fn render_lines_to_odt(lines: &[RenderedLine]) -> (r: String)
    ensures
        r@ == flat_map(lines@, |l: RenderedLine| odt_paragraph(l)),
{
    let mut paragraphs = String::new();
    let mut i: usize = 0;
    while i < lines.len()
        invariant
            i <= lines.len(),
            paragraphs@ == flat_map(lines@.take(i as int), |l: RenderedLine| odt_paragraph(l)),
        decreases lines.len() - i,
    {
        proof {
            lemma_flat_map_take(lines@, |l: RenderedLine| odt_paragraph(l), i as int);
        }
        if lines[i].html.as_str().is_empty() {
            paragraphs.append("<text:p text:style-name=\"Preformatted_20_Text\"/>");
        } else {
            paragraphs.append("<text:p text:style-name=\"Preformatted_20_Text\">");
            paragraphs.append(lines[i].html.as_str());
            paragraphs.append("</text:p>");
        }
        i += 1;
    }
    proof {
        lemma_take_full(lines@);
    }
    paragraphs
}

/// Renders a captured screen as preformatted paragraphs (the same as for
/// lines).
pub fn render_fullscreen_to_odt(lines: &[RenderedLine]) -> (r: String)
    ensures
        r@ == flat_map(lines@, |l: RenderedLine| odt_paragraph(l)),
{
    render_lines_to_odt(lines)
}

/// The synthetic style name of a pen: `T`, then `c` and the color (the
/// background under inverse video), `b` for bold, `i` for italic.
pub open spec fn spec_span_style(p: Pen) -> Seq<char> {
    let fg = if p.inverse { p.background } else { p.foreground };
    "T"@ + (match fg {
        Some(c) => "c"@ + spec_color_to_hex(c),
        None => Seq::empty(),
    }) + (if p.bold { "b"@ } else { Seq::empty() }) + (if p.italic { "i"@ } else { Seq::empty() })
}

/// The style name of a pen.
pub fn span_style(pen: &Pen) -> (r: String)
    ensures
        r@ == spec_span_style(*pen),
{
    let fg = if pen.inverse { pen.background } else { pen.foreground };
    let mut r = String::new();
    r.append("T");
    if let Some(color) = fg {
        r.append("c");
        r.append(color_to_hex(color).as_str());
    }
    if pen.bold {
        r.append("b");
    }
    if pen.italic {
        r.append("i");
    }
    r
}

/// The span of one style run.
pub open spec fn odt_run(run: (Seq<char>, Pen)) -> Seq<char> {
    let esc = spec_html_escape(run.0);
    if pen_is_default(run.1) {
        "<text:span>"@ + esc + "</text:span>"@
    } else {
        "<text:span text:style-name=\""@ + spec_span_style(run.1) + "\">"@ + esc
            + "</text:span>"@
    }
}

/// The odt spans of a line: escaped text, one span per style run when
/// `ansi` holds (trailing blanks are kept in styled output).
pub open spec fn spec_render_line_odt(cells: Seq<TermCell>, ansi: bool, trailing: bool) -> Seq<
    char,
> {
    if !ansi {
        spec_html_escape(
            if trailing {
                spec_line_text_raw(cells)
            } else {
                spec_line_text(cells)
            },
        )
    } else {
        flat_map(spec_styled_runs(cells), |r: (Seq<char>, Pen)| odt_run(r))
    }
}

/// Renders one terminal line to odt spans (the markup goes to `html`).
pub fn render_line(line: &[TermCell], ansi: bool, trailing_spaces: bool) -> (r: RenderedLine)
    ensures
        r.text@ == spec_line_text(line@),
        r.html@ == spec_render_line_odt(line@, ansi, trailing_spaces),
{
    let text = line_to_text(line);
    if !ansi {
        let html = if trailing_spaces {
            xml_escape(line_to_text_raw(line).as_str())
        } else {
            xml_escape(text.as_str())
        };
        return RenderedLine { html, text };
    }
    let (runs, pens) = styled_runs(line);
    let ghost rv = spec_styled_runs(line@);
    let mut out = String::new();
    let mut k: usize = 0;
    while k < runs.len()
        invariant
            k <= runs.len(),
            runs.len() == pens.len(),
            rv == runs_view(runs@, pens@),
            forall|m: int|
                0 <= m < runs.len() ==> (#[trigger] runs@[m]).pen_idx == m
                    && runs@[m].is_default == pen_is_default(pens@[m]),
            out@ == flat_map(rv.take(k as int), |r: (Seq<char>, Pen)| odt_run(r)),
        decreases runs.len() - k,
    {
        proof {
            lemma_flat_map_take(rv, |r: (Seq<char>, Pen)| odt_run(r), k as int);
        }
        let run = &runs[k];
        let esc = xml_escape(run.text.as_str());
        if run.is_default {
            out.append("<text:span>");
        } else {
            out.append("<text:span text:style-name=\"");
            out.append(span_style(&pens[run.pen_idx]).as_str());
            out.append("\">");
        }
        out.append(esc.as_str());
        out.append("</text:span>");
        k += 1;
    }
    proof {
        lemma_take_full(rv);
    }
    RenderedLine { html: out, text }
}

} // verus!
