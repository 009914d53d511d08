//! Office Open XML (docx) rendering: a one-cell table of preformatted
//! paragraphs.
use vstd::prelude::*;
use crate::color::{color_to_hex, spec_color_to_hex};
use crate::renderer::{html_escape, spec_html_escape, RenderedLine};
use crate::terminal_line::{
    line_to_text, line_to_text_raw, pen_is_default, runs_view, spec_line_text, spec_line_text_raw,
    spec_styled_runs, styled_runs, Pen, TermCell,
};
use crate::text::{
    chars_to_string, css_font_name, decimal, flat_map, font_name, lemma_flat_map_take,
    lemma_take_full, push_decimal, str_chars, trim_start_char,
};

verus! {

/// Escapes `&`, `<`, `>` and `"` for XML text.
pub fn xml_escape(s: &str) -> (r: String)
    ensures
        r@ == spec_html_escape(s@),
{
    html_escape(s)
}

/// Colors, font and spacing for the docx output. The font size is in half
/// points and the line height in twips, both already converted from the
/// CSS settings.
pub struct DocxTheme<'a> {
    pub bg: Option<&'a str>,
    pub fg: Option<&'a str>,
    pub font_half_points: Option<u32>,
    pub font_family: Option<&'a str>,
    pub line_twips: Option<u32>,
}

/// A color value without its leading `#`s.
fn strip_hash(s: &str) -> (r: String)
    ensures
        r@ == trim_start_char(s@, '#'),
{
    let v = str_chars(s);
    let mut a: usize = 0;
    assert(v@.skip(0) =~= v@);
    while a < v.len() && v[a] == '#'
        invariant
            a <= v.len(),
            trim_start_char(v@, '#') == trim_start_char(v@.skip(a as int), '#'),
        decreases v.len() - a,
    {
        assert(v@.skip(a as int).drop_first() =~= v@.skip(a + 1));
        a += 1;
    }
    let rest = crate::text::slice_vec(&v, a, v.len());
    assert(rest@ =~= v@.skip(a as int));
    chars_to_string(&rest)
}

/// The run font declaration (Courier New by default).
pub open spec fn fonts_part(t: DocxTheme) -> Seq<char> {
    let font = match t.font_family {
        Some(f) => css_font_name(f@),
        None => "Courier New"@,
    };
    "<w:rFonts w:ascii=\""@ + font + "\" w:hAnsi=\""@ + font + "\" w:cs=\""@ + font + "\"/>"@
}

/// The size declaration, in half points.
pub open spec fn size_part(t: DocxTheme) -> Seq<char> {
    match t.font_half_points {
        Some(h) => "<w:sz w:val=\""@ + decimal(h as nat) + "\"/><w:szCs w:val=\""@ + decimal(
            h as nat,
        ) + "\"/>"@,
        None => Seq::empty(),
    }
}

/// The text color declaration.
pub open spec fn color_part(t: DocxTheme) -> Seq<char> {
    match t.fg {
        Some(fg) => "<w:color w:val=\""@ + trim_start_char(fg@, '#') + "\"/>"@,
        None => Seq::empty(),
    }
}

/// The exact line spacing, in twips.
pub open spec fn spacing_part(t: DocxTheme) -> Seq<char> {
    match t.line_twips {
        Some(tw) => "<w:spacing w:line=\""@ + decimal(tw as nat) + "\" w:lineRule=\"exact\"/>"@,
        None => Seq::empty(),
    }
}

/// The paragraph properties shared by every line: run font, size and
/// color, and exact line spacing.
pub open spec fn spec_paragraph_properties(t: DocxTheme) -> Seq<char> {
    "<w:pPr><w:rPr>"@ + fonts_part(t) + size_part(t) + color_part(t) + "</w:rPr>"@
        + spacing_part(t) + "</w:pPr>"@
}

fn fonts_string(theme: &DocxTheme) -> (r: String)
    ensures
        r@ == fonts_part(*theme),
{
    let font = match theme.font_family {
        Some(f) => font_name(f),
        None => {
            let mut s = String::new();
            s.append("Courier New");
            s
        },
    };
    let mut r = String::new();
    r.append("<w:rFonts w:ascii=\"");
    r.append(font.as_str());
    r.append("\" w:hAnsi=\"");
    r.append(font.as_str());
    r.append("\" w:cs=\"");
    r.append(font.as_str());
    r.append("\"/>");
    r
}

fn size_string(theme: &DocxTheme) -> (r: String)
    ensures
        r@ == size_part(*theme),
{
    let mut r = String::new();
    if let Some(h) = theme.font_half_points {
        r.append("<w:sz w:val=\"");
        push_decimal(&mut r, h as u64);
        r.append("\"/><w:szCs w:val=\"");
        push_decimal(&mut r, h as u64);
        r.append("\"/>");
    }
    r
}

fn color_string(theme: &DocxTheme) -> (r: String)
    ensures
        r@ == color_part(*theme),
{
    let mut r = String::new();
    if let Some(fg) = theme.fg {
        r.append("<w:color w:val=\"");
        r.append(strip_hash(fg).as_str());
        r.append("\"/>");
    }
    r
}

fn spacing_string(theme: &DocxTheme) -> (r: String)
    ensures
        r@ == spacing_part(*theme),
{
    let mut r = String::new();
    if let Some(tw) = theme.line_twips {
        r.append("<w:spacing w:line=\"");
        push_decimal(&mut r, tw as u64);
        r.append("\" w:lineRule=\"exact\"/>");
    }
    r
}

/// The paragraph properties of a theme.
pub fn paragraph_properties(theme: &DocxTheme) -> (r: String)
    ensures
        r@ == spec_paragraph_properties(*theme),
{
    let mut r = String::new();
    r.append("<w:pPr><w:rPr>");
    r.append(fonts_string(theme).as_str());
    r.append(size_string(theme).as_str());
    r.append(color_string(theme).as_str());
    r.append("</w:rPr>");
    r.append(spacing_string(theme).as_str());
    r.append("</w:pPr>");
    r
}

/// One paragraph per line.
pub open spec fn docx_paragraph(ppr: Seq<char>, l: RenderedLine) -> Seq<char> {
    "<w:p>"@ + ppr + l.html@ + "</w:p>"@
}

/// The table that holds the paragraphs.
pub open spec fn spec_docx_table(lines: Seq<RenderedLine>, t: DocxTheme) -> Seq<char> {
    if lines.len() == 0 {
        Seq::empty()
    } else {
        let ppr = spec_paragraph_properties(t);
        let shading = match t.bg {
            Some(bg) => "<w:tcPr><w:shd w:val=\"clear\" w:color=\"auto\" w:fill=\""@
                + trim_start_char(bg@, '#') + "\"/></w:tcPr>"@,
            None => Seq::empty(),
        };
        table_head() + shading + flat_map(lines, |l: RenderedLine| docx_paragraph(ppr, l))
            + "</w:tc></w:tr></w:tbl>"@
    }
}

/// The table and cell properties before the cell's content.
pub open spec fn table_head() -> Seq<char> {
    "<w:tbl><w:tblPr><w:tblW w:w=\"5000\" w:type=\"pct\"/><w:tblBorders><w:top w:val=\"single\" w:sz=\"4\" w:space=\"0\" w:color=\"D0D0D0\"/><w:left w:val=\"single\" w:sz=\"4\" w:space=\"0\" w:color=\"D0D0D0\"/><w:bottom w:val=\"single\" w:sz=\"4\" w:space=\"0\" w:color=\"D0D0D0\"/><w:right w:val=\"single\" w:sz=\"4\" w:space=\"0\" w:color=\"D0D0D0\"/></w:tblBorders><w:tblCellMar><w:top w:w=\"80\" w:type=\"dxa\"/><w:left w:w=\"120\" w:type=\"dxa\"/><w:bottom w:w=\"80\" w:type=\"dxa\"/><w:right w:w=\"120\" w:type=\"dxa\"/></w:tblCellMar></w:tblPr><w:tr><w:tc>"@
}

/// Renders lines as a docx table of preformatted paragraphs; nothing for
/// no lines.
pub fn render_lines_to_docx(lines: &[RenderedLine], theme: &DocxTheme) -> (r: String)
    ensures
        r@ == spec_docx_table(lines@, *theme),
{
    if lines.len() == 0 {
        return String::new();
    }
    let ppr = paragraph_properties(theme);
    let mut paragraphs = String::new();
    let mut i: usize = 0;
    while i < lines.len()
        invariant
            i <= lines.len(),
            ppr@ == spec_paragraph_properties(*theme),
            paragraphs@ == flat_map(
                lines@.take(i as int),
                |l: RenderedLine| docx_paragraph(spec_paragraph_properties(*theme), l),
            ),
        decreases lines.len() - i,
    {
        proof {
            lemma_flat_map_take(
                lines@,
                |l: RenderedLine| docx_paragraph(spec_paragraph_properties(*theme), l),
                i as int,
            );
        }
        paragraphs.append("<w:p>");
        paragraphs.append(ppr.as_str());
        paragraphs.append(lines[i].html.as_str());
        paragraphs.append("</w:p>");
        i += 1;
    }
    proof {
        lemma_take_full(lines@);
    }
    let mut r = String::new();
    r.append("<w:tbl><w:tblPr><w:tblW w:w=\"5000\" w:type=\"pct\"/><w:tblBorders><w:top w:val=\"single\" w:sz=\"4\" w:space=\"0\" w:color=\"D0D0D0\"/><w:left w:val=\"single\" w:sz=\"4\" w:space=\"0\" w:color=\"D0D0D0\"/><w:bottom w:val=\"single\" w:sz=\"4\" w:space=\"0\" w:color=\"D0D0D0\"/><w:right w:val=\"single\" w:sz=\"4\" w:space=\"0\" w:color=\"D0D0D0\"/></w:tblBorders><w:tblCellMar><w:top w:w=\"80\" w:type=\"dxa\"/><w:left w:w=\"120\" w:type=\"dxa\"/><w:bottom w:w=\"80\" w:type=\"dxa\"/><w:right w:w=\"120\" w:type=\"dxa\"/></w:tblCellMar></w:tblPr><w:tr><w:tc>");
    if let Some(bg) = theme.bg {
        r.append("<w:tcPr><w:shd w:val=\"clear\" w:color=\"auto\" w:fill=\"");
        r.append(strip_hash(bg).as_str());
        r.append("\"/></w:tcPr>");
    }
    r.append(paragraphs.as_str());
    r.append("</w:tc></w:tr></w:tbl>");
    r
}

/// Renders a captured screen as a docx table (the same table as for
/// lines).
pub fn render_fullscreen_to_docx(lines: &[RenderedLine], theme: &DocxTheme) -> (r: String)
    ensures
        r@ == spec_docx_table(lines@, *theme),
{
    render_lines_to_docx(lines, theme)
}

/// The declarations of a pen's run properties: color (the background
/// under inverse video), bold, italic, underline, strike.
pub open spec fn run_property_parts(p: Pen) -> Seq<char> {
    let fg = if p.inverse { p.background } else { p.foreground };
    (match fg {
        Some(c) => "<w:color w:val=\""@ + spec_color_to_hex(c) + "\"/>"@,
        None => Seq::empty(),
    }) + (if p.bold { "<w:b/>"@ } else { Seq::empty() }) + (if p.italic {
        "<w:i/>"@
    } else {
        Seq::empty()
    }) + (if p.underline { "<w:u w:val=\"single\"/>"@ } else { Seq::empty() }) + (
    if p.strikethrough {
        "<w:strike/>"@
    } else {
        Seq::empty()
    })
}

/// The run properties of a pen; nothing when no declaration applies.
pub open spec fn spec_run_properties(p: Pen) -> Seq<char> {
    let fg = if p.inverse { p.background } else { p.foreground };
    if !(fg is Some || p.bold || p.italic || p.underline || p.strikethrough) {
        Seq::empty()
    } else {
        "<w:rPr>"@ + run_property_parts(p) + "</w:rPr>"@
    }
}

fn run_property_string(pen: &Pen) -> (r: String)
    ensures
        r@ == run_property_parts(*pen),
{
    let fg = if pen.inverse { pen.background } else { pen.foreground };
    let mut r = String::new();
    if let Some(color) = fg {
        r.append("<w:color w:val=\"");
        r.append(color_to_hex(color).as_str());
        r.append("\"/>");
    }
    if pen.bold {
        r.append("<w:b/>");
    }
    if pen.italic {
        r.append("<w:i/>");
    }
    if pen.underline {
        r.append("<w:u w:val=\"single\"/>");
    }
    if pen.strikethrough {
        r.append("<w:strike/>");
    }
    r
}

/// The run properties of a pen.
pub fn run_properties(pen: &Pen) -> (r: String)
    ensures
        r@ == spec_run_properties(*pen),
{
    let fg = if pen.inverse { pen.background } else { pen.foreground };
    if !(fg.is_some() || pen.bold || pen.italic || pen.underline || pen.strikethrough) {
        return String::new();
    }
    let mut r = String::new();
    r.append("<w:rPr>");
    r.append(run_property_string(pen).as_str());
    r.append("</w:rPr>");
    r
}

/// The `<w:r>` of one style run.
pub open spec fn docx_run(run: (Seq<char>, Pen)) -> Seq<char> {
    "<w:r>"@ + (if pen_is_default(run.1) {
        Seq::empty()
    } else {
        spec_run_properties(run.1)
    }) + "<w:t xml:space=\"preserve\">"@ + spec_html_escape(run.0) + "</w:t></w:r>"@
}

/// The docx runs of a line: escaped text, one run per style run when
/// `ansi` holds (trailing blanks are kept in styled output).
pub open spec fn spec_render_line_docx(cells: Seq<TermCell>, ansi: bool, trailing: bool) -> Seq<
    char,
> {
    if !ansi {
        spec_html_escape(
            if trailing {
                spec_line_text_raw(cells)
            } else {
                spec_line_text(cells)
            },
        )
    } else {
        flat_map(spec_styled_runs(cells), |r: (Seq<char>, Pen)| docx_run(r))
    }
}

/// Renders one terminal line to docx runs (the markup goes to `html`).
pub fn render_line(line: &[TermCell], ansi: bool, trailing_spaces: bool) -> (r: RenderedLine)
    ensures
        r.text@ == spec_line_text(line@),
        r.html@ == spec_render_line_docx(line@, ansi, trailing_spaces),
{
    let text = line_to_text(line);
    if !ansi {
        let html = if trailing_spaces {
            xml_escape(line_to_text_raw(line).as_str())
        } else {
            xml_escape(text.as_str())
        };
        return RenderedLine { html, text };
    }
    let (runs, pens) = styled_runs(line);
    let ghost rv = spec_styled_runs(line@);
    let mut out = String::new();
    let mut k: usize = 0;
    while k < runs.len()
        invariant
            k <= runs.len(),
            runs.len() == pens.len(),
            rv == runs_view(runs@, pens@),
            forall|m: int|
                0 <= m < runs.len() ==> (#[trigger] runs@[m]).pen_idx == m
                    && runs@[m].is_default == pen_is_default(pens@[m]),
            out@ == flat_map(rv.take(k as int), |r: (Seq<char>, Pen)| docx_run(r)),
        decreases runs.len() - k,
    {
        proof {
            lemma_flat_map_take(rv, |r: (Seq<char>, Pen)| docx_run(r), k as int);
        }
        let run = &runs[k];
        let esc = xml_escape(run.text.as_str());
        out.append("<w:r>");
        if !run.is_default {
            out.append(run_properties(&pens[run.pen_idx]).as_str());
        }
        out.append("<w:t xml:space=\"preserve\">");
        out.append(esc.as_str());
        out.append("</w:t></w:r>");
        k += 1;
    }
    proof {
        lemma_take_full(rv);
    }
    RenderedLine { html: out, text }
}

/// The color declaration of a pen's run properties (the background under
/// inverse video).
proof fn lemma_parts_split(p: Pen)
    ensures
        run_property_parts(p) == run_property_parts(
            (Pen { bold: false, italic: false, underline: false, strikethrough: false, ..p }),
        ) + (if p.bold { "<w:b/>"@ } else { Seq::<char>::empty() }) + (if p.italic {
            "<w:i/>"@
        } else {
            Seq::<char>::empty()
        }) + (if p.underline { "<w:u w:val=\"single\"/>"@ } else { Seq::<char>::empty() }) + (
        if p.strikethrough {
            "<w:strike/>"@
        } else {
            Seq::<char>::empty()
        }),
{
    let plain = Pen { bold: false, italic: false, underline: false, strikethrough: false, ..p };
    assert(run_property_parts(plain) =~= run_property_parts(plain) + Seq::<char>::empty()
        + Seq::<char>::empty() + Seq::<char>::empty() + Seq::<char>::empty());
}

/// A pen's run properties hold the bold mark `<w:b/>` exactly for a bold
/// pen: turning bold on inserts `<w:b/>` right after the color
/// declaration, and the other declarations stay as they were.
#[verifier::rlimit(100)]
pub proof fn law_bold_mark(p: Pen)
    requires
        !p.bold,
    ensures
        ({
            let k = run_property_parts(
                (Pen { bold: false, italic: false, underline: false, strikethrough: false, ..p }),
            ).len() as int;
            run_property_parts((Pen { bold: true, ..p })) == run_property_parts(p).take(k) + seq![
                '<',
                'w',
                ':',
                'b',
                '/',
                '>',
            ] + run_property_parts(p).skip(k)
        }),
{
    reveal_strlit("<w:b/>");
    assert("<w:b/>"@ =~= seq!['<', 'w', ':', 'b', '/', '>']);
    let q = Pen { bold: true, ..p };
    let plain = Pen { bold: false, italic: false, underline: false, strikethrough: false, ..p };
    assert(plain == Pen { bold: false, italic: false, underline: false, strikethrough: false, ..q });
    lemma_parts_split(p);
    lemma_parts_split(q);
    let c = run_property_parts(plain);
    let ius = (if p.italic { "<w:i/>"@ } else { Seq::<char>::empty() }) + (if p.underline {
        "<w:u w:val=\"single\"/>"@
    } else {
        Seq::<char>::empty()
    }) + (if p.strikethrough {
        "<w:strike/>"@
    } else {
        Seq::<char>::empty()
    });
    assert(run_property_parts(p) =~= c + ius);
    assert(run_property_parts(q) =~= c + "<w:b/>"@ + ius);
    assert((c + ius).take(c.len() as int) =~= c);
    assert((c + ius).skip(c.len() as int) =~= ius);
}

/// A pen's run properties hold the italic mark `<w:i/>` exactly for an
/// italic pen: turning italic on inserts `<w:i/>` right after the color
/// and bold declarations, and the other declarations stay as they were.
#[verifier::rlimit(100)]
pub proof fn law_italic_mark(p: Pen)
    requires
        !p.italic,
    ensures
        ({
            let k = run_property_parts(
                (Pen { italic: false, underline: false, strikethrough: false, ..p }),
            ).len() as int;
            run_property_parts((Pen { italic: true, ..p })) == run_property_parts(p).take(k) + seq![
                '<',
                'w',
                ':',
                'i',
                '/',
                '>',
            ] + run_property_parts(p).skip(k)
        }),
{
    reveal_strlit("<w:i/>");
    assert("<w:i/>"@ =~= seq!['<', 'w', ':', 'i', '/', '>']);
    let q = Pen { italic: true, ..p };
    let pb = Pen { italic: false, underline: false, strikethrough: false, ..p };
    lemma_parts_split(p);
    lemma_parts_split(q);
    lemma_parts_split(pb);
    let cb = run_property_parts(pb);
    let rest = run_property_parts(p).skip(cb.len() as int);
    assert(run_property_parts(p) =~= cb + rest);
    assert(run_property_parts(p).take(cb.len() as int) =~= cb);
    assert(run_property_parts(q) =~= cb + "<w:i/>"@ + rest);
}

} // verus!
