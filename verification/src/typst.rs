//! Typst rendering: a themed `#block` holding raw text or styled markup.
use vstd::prelude::*;
use crate::color::{color_to_hex, spec_color_to_hex};
use crate::renderer::{html_views, join_lines, text_views, RenderedLine};
use crate::terminal_line::{
    line_to_text, line_to_text_raw, pen_is_default, runs_view, spec_line_text, spec_line_text_raw,
    spec_styled_runs, styled_runs, Pen, TermCell,
};
use crate::text::{
    css_font_name, flat_map, font_name, join, join_strings, lemma_flat_map_take, lemma_take_full,
    push_char, str_chars, strings_view, trim_end_seq, trim_end_str,
};

verus! {

/// Characters with a meaning in Typst markup.
pub open spec fn typst_special(c: char) -> bool {
    c == '#' || c == '$' || c == '_' || c == '*' || c == '@' || c == '<' || c == '>' || c == '`'
        || c == '[' || c == ']'
}

/// What Typst markup makes of one character.
pub open spec fn typst_char_esc(c: char) -> Seq<char> {
    if typst_special(c) {
        seq!['\\', c]
    } else {
        seq![c]
    }
}

/// Typst escaping: a backslash before each markup character.
pub open spec fn spec_typst_escape(s: Seq<char>) -> Seq<char> {
    flat_map(s, |c: char| typst_char_esc(c))
}

/// Escapes the characters that have a meaning in Typst markup.
pub fn typst_escape(s: &str) -> (r: String)
    ensures
        r@ == spec_typst_escape(s@),
{
    let v = str_chars(s);
    let mut out = String::new();
    let mut i: usize = 0;
    while i < v.len()
        invariant
            i <= v.len(),
            out@ == spec_typst_escape(v@.take(i as int)),
        decreases v.len() - i,
    {
        let c = v[i];
        proof {
            lemma_flat_map_take(v@, |c: char| typst_char_esc(c), i as int);
        }
        if c == '#' || c == '$' || c == '_' || c == '*' || c == '@' || c == '<' || c == '>' || c
            == '`' || c == '[' || c == ']' {
            push_char(&mut out, '\\');
        }
        push_char(&mut out, c);
        proof {
            assert(out@ =~= spec_typst_escape(v@.take(i as int)) + typst_char_esc(c));
        }
        i += 1;
    }
    proof {
        lemma_take_full(v@);
    }
    out
}

/// Colors, font and spacing for the Typst output. `size` is a Typst length
/// (such as `0.80em` or `10pt`) and `leading` the paragraph leading in `em`
/// (such as `0.3`), both already converted from the CSS settings.
pub struct TypstTheme<'a> {
    pub bg: Option<&'a str>,
    pub fg: Option<&'a str>,
    pub size: Option<&'a str>,
    pub font_family: Option<&'a str>,
    pub leading: Option<&'a str>,
}

/// `p` occurs in `s`.
pub open spec fn contains_seq(s: Seq<char>, p: Seq<char>) -> bool {
    exists|i: int| 0 <= i <= s.len() - p.len() && #[trigger] s.subrange(i, i + p.len()) == p
}

pub fn contains_chars(s: &[char], p: &[char]) -> (b: bool)
    ensures
        b == contains_seq(s@, p@),
{
    if p.len() > s.len() {
        return false;
    }
    let mut i: usize = 0;
    while i <= s.len() - p.len()
        invariant
            p.len() <= s.len(),
            i <= s.len() - p.len() + 1,
            forall|k: int| 0 <= k < i ==> #[trigger] s@.subrange(k, k + p.len()) != p@,
        decreases s.len() - p.len() + 1 - i,
    {
        let mut j: usize = 0;
        let mut same = true;
        while j < p.len()
            invariant
                p.len() <= s.len(),
                i <= s.len() - p.len(),
                j <= p.len(),
                same == forall|m: int| 0 <= m < j ==> s@[i + m] == p@[m],
            decreases p.len() - j,
        {
            if s[i + j] != p[j] {
                same = false;
            }
            j += 1;
        }
        if same {
            assert(s@.subrange(i as int, i + p.len()) =~= p@);
            return true;
        }
        proof {
            let m = choose|m: int| 0 <= m < p.len() && s@[i + m] != p@[m];
            assert(s@.subrange(i as int, i + p.len())[m] != p@[m]);
        }
        i += 1;
    }
    false
}

/// Whether a line's markup carries Typst styling.
pub open spec fn styled_markup(html: Seq<char>) -> bool {
    contains_seq(html, "#text("@) || contains_seq(html, "#strong["@) || contains_seq(
        html,
        "#emph["@,
    ) || contains_seq(html, "#underline["@)
}

/// Whether any of the lines carries Typst styling.
pub open spec fn any_styled(lines: Seq<RenderedLine>) -> bool {
    exists|i: int| 0 <= i < lines.len() && styled_markup(#[trigger] lines[i].html@)
}

fn has_markup(lines: &[RenderedLine]) -> (b: bool)
    ensures
        b == any_styled(lines@),
{
    let mut i: usize = 0;
    while i < lines.len()
        invariant
            i <= lines.len(),
            forall|k: int| 0 <= k < i ==> !styled_markup(#[trigger] lines@[k].html@),
        decreases lines.len() - i,
    {
        let h = str_chars(lines[i].html.as_str());
        if contains_chars(&h, &str_chars("#text(")) || contains_chars(&h, &str_chars("#strong["))
            || contains_chars(&h, &str_chars("#emph[")) || contains_chars(
            &h,
            &str_chars("#underline["),
        ) {
            assert(styled_markup(lines@[i as int].html@));
            return true;
        }
        i += 1;
    }
    false
}

/// The `#block(...)` parameters.
pub open spec fn block_params(t: TypstTheme) -> Seq<Seq<char>> {
    (match t.bg {
        Some(bg) => seq!["fill: rgb(\"#"@ + bg@ + "\")"@],
        None => Seq::empty(),
    }) + seq!["radius: 4pt"@, "inset: 8pt"@, "width: 100%"@]
}

/// The `#set text(...)` parameters: font (Courier New by default), size,
/// fill.
pub open spec fn text_params(t: TypstTheme) -> Seq<Seq<char>> {
    let font = match t.font_family {
        Some(f) => css_font_name(f@),
        None => "Courier New"@,
    };
    seq!["font: \""@ + font + "\""@] + (match t.size {
        Some(s) => seq!["size: "@ + s@],
        None => Seq::empty(),
    }) + (match t.fg {
        Some(fg) => seq!["fill: rgb(\"#"@ + fg@ + "\")"@],
        None => Seq::empty(),
    })
}

/// The body: styled markup joined by Typst line breaks, or the plain text
/// as a raw block.
pub open spec fn typst_body(lines: Seq<RenderedLine>) -> Seq<char> {
    if any_styled(lines) {
        join(html_views(lines), "\\\n"@) + "\n"@
    } else {
        "```\n"@ + join(text_views(lines), "\n"@) + "\n```\n"@
    }
}

/// A themed Typst block of the lines; nothing for no lines.
pub open spec fn spec_typst_block(lines: Seq<RenderedLine>, t: TypstTheme) -> Seq<char> {
    if lines.len() == 0 {
        Seq::empty()
    } else {
        "#block("@ + join(block_params(t), ", "@) + ")[\n"@ + "#set text("@ + join(
            text_params(t),
            ", "@,
        ) + ")\n"@ + (match t.leading {
            Some(l) => "#set par(leading: "@ + l@ + "em)\n"@,
            None => Seq::empty(),
        }) + typst_body(lines) + "]\n"@
    }
}

fn string_of3(a: &str, b: &str, c: &str) -> (r: String)
    ensures
        r@ == a@ + b@ + c@,
{
    let mut r = String::new();
    r.append(a);
    r.append(b);
    r.append(c);
    r
}

fn string_of(a: &str) -> (r: String)
    ensures
        r@ == a@,
{
    let mut r = String::new();
    r.append(a);
    r
}

fn push_string(v: &mut Vec<String>, s: String)
    ensures
        strings_view(final(v)@) == strings_view(old(v)@).push(s@),
{
    let ghost before = strings_view(v@);
    v.push(s);
    assert(strings_view(v@) =~= before.push(s@));
}

/// Renders lines as a themed Typst block.
pub fn render_lines_to_typst(lines: &[RenderedLine], theme: &TypstTheme) -> (r: String)
    ensures
        r@ == spec_typst_block(lines@, *theme),
{
    if lines.len() == 0 {
        return String::new();
    }
    let markup = has_markup(lines);
    let mut bp: Vec<String> = Vec::new();
    assert(strings_view(bp@) =~= Seq::<Seq<char>>::empty());
    if let Some(bg) = theme.bg {
        push_string(&mut bp, string_of3("fill: rgb(\"#", bg, "\")"));
    }
    push_string(&mut bp, string_of("radius: 4pt"));
    push_string(&mut bp, string_of("inset: 8pt"));
    push_string(&mut bp, string_of("width: 100%"));
    assert(strings_view(bp@) =~= block_params(*theme));
    let mut tp: Vec<String> = Vec::new();
    assert(strings_view(tp@) =~= Seq::<Seq<char>>::empty());
    let font = match theme.font_family {
        Some(f) => font_name(f),
        None => string_of("Courier New"),
    };
    push_string(&mut tp, string_of3("font: \"", font.as_str(), "\""));
    if let Some(s) = theme.size {
        let mut sz = string_of("size: ");
        sz.append(s);
        push_string(&mut tp, sz);
    }
    if let Some(fg) = theme.fg {
        push_string(&mut tp, string_of3("fill: rgb(\"#", fg, "\")"));
    }
    assert(strings_view(tp@) =~= text_params(*theme));
    let mut result = String::new();
    result.append("#block(");
    result.append(join_strings(&bp, ", ").as_str());
    result.append(")[\n");
    result.append("#set text(");
    result.append(join_strings(&tp, ", ").as_str());
    result.append(")\n");
    if let Some(l) = theme.leading {
        result.append("#set par(leading: ");
        result.append(l);
        result.append("em)\n");
    }
    if markup {
        result.append(join_lines(lines, false, "\\\n").as_str());
        result.append("\n");
    } else {
        result.append("```\n");
        result.append(join_lines(lines, true, "\n").as_str());
        result.append("\n```\n");
    }
    result.append("]\n");
    result
}

/// Renders a captured screen as a themed Typst block (the same block as
/// for lines).
pub fn render_fullscreen_to_typst(lines: &[RenderedLine], theme: &TypstTheme) -> (r: String)
    ensures
        r@ == spec_typst_block(lines@, *theme),
{
    render_lines_to_typst(lines, theme)
}

/// Typst markup wrapped in a pen's color (the background under inverse
/// video), then strong, emphasis and underline.
pub open spec fn spec_typst_wrap(text: Seq<char>, p: Pen) -> Seq<char> {
    let fg = if p.inverse { p.background } else { p.foreground };
    let r1 = match fg {
        Some(c) => "#text(fill: rgb(\"#"@ + spec_color_to_hex(c) + "\"))["@ + text + "]"@,
        None => text,
    };
    let r2 = if p.bold { "#strong["@ + r1 + "]"@ } else { r1 };
    let r3 = if p.italic { "#emph["@ + r2 + "]"@ } else { r2 };
    if p.underline { "#underline["@ + r3 + "]"@ } else { r3 }
}

fn wrap(prefix: &str, body: String, suffix: &str) -> (r: String)
    ensures
        r@ == prefix@ + body@ + suffix@,
{
    let mut r = String::new();
    r.append(prefix);
    r.append(body.as_str());
    r.append(suffix);
    r
}

/// Wraps escaped text in the markup of a pen.
pub fn wrap_with_pen(text: String, pen: &Pen) -> (r: String)
    ensures
        r@ == spec_typst_wrap(text@, *pen),
{
    let fg = if pen.inverse { pen.background } else { pen.foreground };
    let mut result = text;
    if let Some(color) = fg {
        let hex = color_to_hex(color);
        let mut r = String::new();
        r.append("#text(fill: rgb(\"#");
        r.append(hex.as_str());
        r.append("\"))[");
        r.append(result.as_str());
        r.append("]");
        result = r;
    }
    if pen.bold {
        result = wrap("#strong[", result, "]");
    }
    if pen.italic {
        result = wrap("#emph[", result, "]");
    }
    if pen.underline {
        result = wrap("#underline[", result, "]");
    }
    result
}

/// The Typst markup of one style run.
pub open spec fn typst_run(run: (Seq<char>, Pen)) -> Seq<char> {
    let esc = spec_typst_escape(run.0);
    if pen_is_default(run.1) {
        esc
    } else {
        spec_typst_wrap(esc, run.1)
    }
}

/// The Typst markup of a line: escaped text, styled when `ansi` holds,
/// trailing whitespace removed unless `trailing` holds.
pub open spec fn spec_render_line_typst(cells: Seq<TermCell>, ansi: bool, trailing: bool) -> Seq<
    char,
> {
    if !ansi {
        spec_typst_escape(
            if trailing {
                spec_line_text_raw(cells)
            } else {
                spec_line_text(cells)
            },
        )
    } else {
        let runs = spec_styled_runs(cells);
        if runs.len() == 0 {
            Seq::empty()
        } else {
            let h = flat_map(runs, |r: (Seq<char>, Pen)| typst_run(r));
            if trailing {
                h
            } else {
                trim_end_seq(h)
            }
        }
    }
}

/// Renders one terminal line to Typst markup (the markup goes to `html`).
pub fn render_line(line: &[TermCell], ansi: bool, trailing_spaces: bool) -> (r: RenderedLine)
    ensures
        r.text@ == spec_line_text(line@),
        r.html@ == spec_render_line_typst(line@, ansi, trailing_spaces),
{
    let text = line_to_text(line);
    if !ansi {
        let html = if trailing_spaces {
            typst_escape(line_to_text_raw(line).as_str())
        } else {
            typst_escape(text.as_str())
        };
        return RenderedLine { html, text };
    }
    let (runs, pens) = styled_runs(line);
    if runs.len() == 0 {
        return RenderedLine { html: String::new(), text };
    }
    let ghost rv = spec_styled_runs(line@);
    let mut markup = String::new();
    let mut k: usize = 0;
    while k < runs.len()
        invariant
            k <= runs.len(),
            runs.len() == pens.len(),
            rv == runs_view(runs@, pens@),
            forall|m: int|
                0 <= m < runs.len() ==> (#[trigger] runs@[m]).pen_idx == m
                    && runs@[m].is_default == pen_is_default(pens@[m]),
            markup@ == flat_map(rv.take(k as int), |r: (Seq<char>, Pen)| typst_run(r)),
        decreases runs.len() - k,
    {
        proof {
            lemma_flat_map_take(rv, |r: (Seq<char>, Pen)| typst_run(r), k as int);
        }
        let run = &runs[k];
        let esc = typst_escape(run.text.as_str());
        if run.is_default {
            markup.append(esc.as_str());
        } else {
            let wrapped = wrap_with_pen(esc, &pens[run.pen_idx]);
            markup.append(wrapped.as_str());
        }
        k += 1;
    }
    proof {
        lemma_take_full(rv);
    }
    let markup = if trailing_spaces {
        markup
    } else {
        trim_end_str(markup.as_str())
    };
    RenderedLine { html: markup, text }
}

} // verus!
