//! HTML rendering of captured terminal lines.
use vstd::prelude::*;
use crate::color::{color_to_css, spec_color_to_css};
use crate::terminal_line::{
    line_to_text, line_to_text_raw, pen_is_default, spec_line_text,
    spec_line_text_raw, spec_styled_runs, styled_runs, Pen, TermCell,
};
use crate::text::{
    chars_to_string, flat_map, join, join_strings, lemma_flat_map_take, lemma_take_full, push_char,
    slice_vec, str_chars, strings_view, trim_end_seq, trim_end_str,
};

verus! {

/// A captured line: its markup for the target format (`html` whatever the
/// format is) and its plain text.
pub struct RenderedLine {
    pub html: String,
    pub text: String,
}

/// What HTML makes of one character.
pub open spec fn html_char_esc(c: char) -> Seq<char> {
    if c == '&' {
        "&amp;"@
    } else if c == '<' {
        "&lt;"@
    } else if c == '>' {
        "&gt;"@
    } else if c == '"' {
        "&quot;"@
    } else {
        seq![c]
    }
}

/// HTML escaping of `&`, `<`, `>` and `"`.
pub open spec fn spec_html_escape(s: Seq<char>) -> Seq<char> {
    flat_map(s, |c: char| html_char_esc(c))
}

/// Escapes `&`, `<`, `>` and `"` for HTML.
pub fn html_escape(s: &str) -> (r: String)
    ensures
        r@ == spec_html_escape(s@),
{
    let v = str_chars(s);
    let mut out = String::new();
    let mut i: usize = 0;
    while i < v.len()
        invariant
            i <= v.len(),
            out@ == spec_html_escape(v@.take(i as int)),
        decreases v.len() - i,
    {
        let c = v[i];
        proof {
            lemma_flat_map_take(v@, |c: char| html_char_esc(c), i as int);
        }
        if c == '&' {
            out.append("&amp;");
        } else if c == '<' {
            out.append("&lt;");
        } else if c == '>' {
            out.append("&gt;");
        } else if c == '"' {
            out.append("&quot;");
        } else {
            push_char(&mut out, c);
        }
        i += 1;
    }
    proof {
        lemma_take_full(v@);
    }
    out
}

/// Removes trailing whitespace from rendered markup.
pub fn trim_trailing_spaces_html(s: &str) -> (r: String)
    ensures
        r@ == trim_end_seq(s@),
{
    trim_end_str(s)
}

/// Characters that could break out of a CSS value inside a `style`
/// attribute.
pub open spec fn css_unsafe_char(c: char) -> bool {
    c == '"' || c == '\'' || c == ';' || c == '<' || c == '>' || c == '}' || c == '{' || c
        == '\\'
}

/// A value that can stand in a `style` attribute as it is.
pub open spec fn spec_is_safe_css_value(s: Seq<char>) -> bool {
    forall|i: int| 0 <= i < s.len() ==> !css_unsafe_char(#[trigger] s[i])
}

/// Whether `s` holds none of `"`, `'`, `;`, `<`, `>`, `{`, `}`, `\`.
pub fn is_safe_css_value(s: &str) -> (b: bool)
    ensures
        b == spec_is_safe_css_value(s@),
{
    let v = str_chars(s);
    let mut i: usize = 0;
    while i < v.len()
        invariant
            i <= v.len(),
            v@ == s@,
            forall|k: int| 0 <= k < i ==> !css_unsafe_char(#[trigger] v@[k]),
        decreases v.len() - i,
    {
        let c = v[i];
        if c == '"' || c == '\'' || c == ';' || c == '<' || c == '>' || c == '}' || c == '{' || c
            == '\\' {
            return false;
        }
        i += 1;
    }
    true
}

/// ASCII letters and digits.
pub open spec fn ascii_alnum(c: char) -> bool {
    ('0' <= c && c <= '9') || ('a' <= c && c <= 'z') || ('A' <= c && c <= 'Z')
}

/// Characters allowed in a highlighting language name.
pub open spec fn language_char(c: char) -> bool {
    ascii_alnum(c) || c == '_' || c == '+' || c == '-' || c == '.'
}

/// Characters allowed in a font name.
pub open spec fn font_char(c: char) -> bool {
    ascii_alnum(c) || c == ' ' || c == '-' || c == '_' || c == '.'
}

/// ASCII hexadecimal digits.
pub open spec fn hex_digit_char(c: char) -> bool {
    ('0' <= c && c <= '9') || ('a' <= c && c <= 'f') || ('A' <= c && c <= 'F')
}

/// A non-empty language name of at most 64 ASCII letters, digits and
/// `_+-.`.
pub open spec fn spec_is_safe_language_name(s: Seq<char>) -> bool {
    0 < s.len() <= 64 && forall|i: int| 0 <= i < s.len() ==> language_char(#[trigger] s[i])
}

/// A non-empty font name of at most 128 ASCII letters, digits, spaces and
/// `-_.`.
pub open spec fn spec_is_safe_font_name(s: Seq<char>) -> bool {
    0 < s.len() <= 128 && forall|i: int| 0 <= i < s.len() ==> font_char(#[trigger] s[i])
}

/// Six or seven characters, all hexadecimal digits once one leading `#` is
/// set aside.
pub open spec fn spec_is_safe_hex_color(s: Seq<char>) -> bool {
    let from: int = if s.len() > 0 && s[0] == '#' {
        1
    } else {
        0
    };
    (s.len() == 6 || s.len() == 7) && forall|i: int|
        from <= i < s.len() ==> hex_digit_char(#[trigger] s[i])
}

fn all_language_chars(v: &Vec<char>) -> (b: bool)
    ensures
        b == forall|i: int| 0 <= i < v@.len() ==> language_char(#[trigger] v@[i]),
{
    let mut i: usize = 0;
    while i < v.len()
        invariant
            i <= v.len(),
            forall|k: int| 0 <= k < i ==> language_char(#[trigger] v@[k]),
        decreases v.len() - i,
    {
        let c = v[i];
        let ok = ('0' <= c && c <= '9') || ('a' <= c && c <= 'z') || ('A' <= c && c <= 'Z') || c
            == '_' || c == '+' || c == '-' || c == '.';
        if !ok {
            return false;
        }
        i += 1;
    }
    true
}

fn all_font_chars(v: &Vec<char>) -> (b: bool)
    ensures
        b == forall|i: int| 0 <= i < v@.len() ==> font_char(#[trigger] v@[i]),
{
    let mut i: usize = 0;
    while i < v.len()
        invariant
            i <= v.len(),
            forall|k: int| 0 <= k < i ==> font_char(#[trigger] v@[k]),
        decreases v.len() - i,
    {
        let c = v[i];
        let ok = ('0' <= c && c <= '9') || ('a' <= c && c <= 'z') || ('A' <= c && c <= 'Z') || c
            == ' ' || c == '-' || c == '_' || c == '.';
        if !ok {
            return false;
        }
        i += 1;
    }
    true
}

fn all_hex_from(v: &Vec<char>, from: usize) -> (b: bool)
    requires
        from <= v.len(),
    ensures
        b == forall|i: int| from <= i < v@.len() ==> hex_digit_char(#[trigger] v@[i]),
{
    let mut i: usize = from;
    while i < v.len()
        invariant
            from <= i <= v.len(),
            forall|k: int| from <= k < i ==> hex_digit_char(#[trigger] v@[k]),
        decreases v.len() - i,
    {
        let c = v[i];
        let ok = ('0' <= c && c <= '9') || ('a' <= c && c <= 'f') || ('A' <= c && c <= 'F');
        if !ok {
            return false;
        }
        i += 1;
    }
    true
}

/// Whether `s` is a safe highlighting language name.
pub fn is_safe_language_name(s: &str) -> (b: bool)
    ensures
        b == spec_is_safe_language_name(s@),
{
    let v = str_chars(s);
    v.len() > 0 && v.len() <= 64 && all_language_chars(&v)
}

/// Whether `s` is a safe font name.
pub fn is_safe_font_name(s: &str) -> (b: bool)
    ensures
        b == spec_is_safe_font_name(s@),
{
    let v = str_chars(s);
    v.len() > 0 && v.len() <= 128 && all_font_chars(&v)
}

/// Whether `s` is a six-digit hexadecimal color, with or without `#`.
pub fn is_safe_hex_color(s: &str) -> (b: bool)
    ensures
        b == spec_is_safe_hex_color(s@),
{
    let v = str_chars(s);
    if v.len() != 6 && v.len() != 7 {
        return false;
    }
    let from: usize = if v[0] == '#' { 1 } else { 0 };
    let r = all_hex_from(&v, from);
    r
}

} // verus!

verus! {

/// Font and spacing settings for the HTML output.
pub struct HtmlStyle<'a> {
    pub font_size: Option<&'a str>,
    pub font_family: Option<&'a str>,
    pub line_height: Option<&'a str>,
}

/// One `name:value` declaration, present only for a safe value.
pub open spec fn style_part(name: Seq<char>, v: Option<&str>) -> Seq<Seq<char>> {
    match v {
        Some(x) => if spec_is_safe_css_value(x@) {
            seq![name + x@]
        } else {
            Seq::empty()
        },
        None => Seq::empty(),
    }
}

/// The declarations of a style, in order.
pub open spec fn html_style_parts(st: HtmlStyle) -> Seq<Seq<char>> {
    style_part("font-size:"@, st.font_size) + style_part("font-family:"@, st.font_family)
        + style_part("line-height:"@, st.line_height)
}

/// The ` style="..."` attribute of a style, empty when no value is safe.
pub open spec fn spec_to_attr(st: HtmlStyle) -> Seq<char> {
    let parts = html_style_parts(st);
    if parts.len() == 0 {
        Seq::empty()
    } else {
        " style=\""@ + join(parts, ";"@) + "\""@
    }
}

fn push_style_part(parts: &mut Vec<String>, name: &str, v: Option<&str>)
    ensures
        strings_view(final(parts)@) == strings_view(old(parts)@) + style_part(name@, v),
{
    let ghost before = strings_view(parts@);
    if let Some(x) = v {
        if is_safe_css_value(x) {
            let mut p = String::new();
            p.append(name);
            p.append(x);
            parts.push(p);
            assert(strings_view(parts@) =~= before + seq![name@ + x@]);
        } else {
            assert(strings_view(parts@) =~= before + Seq::<Seq<char>>::empty());
        }
    } else {
        assert(strings_view(parts@) =~= before + Seq::<Seq<char>>::empty());
    }
}

impl<'a> HtmlStyle<'a> {
    /// The ` style="..."` attribute holding the safe values, or nothing.
    pub fn to_attr(&self) -> (r: String)
        ensures
            r@ == spec_to_attr(*self),
    {
        let mut parts: Vec<String> = Vec::new();
        assert(strings_view(parts@) =~= Seq::<Seq<char>>::empty());
        push_style_part(&mut parts, "font-size:", self.font_size);
        push_style_part(&mut parts, "font-family:", self.font_family);
        push_style_part(&mut parts, "line-height:", self.line_height);
        assert(strings_view(parts@) =~= html_style_parts(*self));
        if parts.len() == 0 {
            String::new()
        } else {
            let mut r = String::new();
            r.append(" style=\"");
            let joined = join_strings(&parts, ";");
            r.append(joined.as_str());
            r.append("\"");
            r
        }
    }
}

/// The markup fields of rendered lines.
pub open spec fn html_views(lines: Seq<RenderedLine>) -> Seq<Seq<char>> {
    lines.map_values(|l: RenderedLine| l.html@)
}

/// The text fields of rendered lines.
pub open spec fn text_views(lines: Seq<RenderedLine>) -> Seq<Seq<char>> {
    lines.map_values(|l: RenderedLine| l.text@)
}

/// Joins the markup (or, with `use_text`, the text) of the lines with `sep`.
pub fn join_lines(lines: &[RenderedLine], use_text: bool, sep: &str) -> (r: String)
    ensures
        r@ == join(if use_text { text_views(lines@) } else { html_views(lines@) }, sep@),
{
    let ghost pv = if use_text { text_views(lines@) } else { html_views(lines@) };
    let mut r = String::new();
    let mut i: usize = 0;
    while i < lines.len()
        invariant
            i <= lines.len(),
            pv == (if use_text { text_views(lines@) } else { html_views(lines@) }),
            r@ == join(pv.take(i as int), sep@),
        decreases lines.len() - i,
    {
        assert(pv.take(i + 1).drop_last() =~= pv.take(i as int));
        if i != 0 {
            r.append(sep);
        } else {
            assert(pv.take(1) =~= seq![pv[0]]);
        }
        if use_text {
            r.append(lines[i].text.as_str());
        } else {
            r.append(lines[i].html.as_str());
        }
        i += 1;
    }
    assert(pv.take(lines.len() as int) =~= pv);
    r
}

/// The `<pre>` block of rendered lines with a given class.
pub open spec fn spec_pre_block(lines: Seq<RenderedLine>, class: Seq<char>, st: HtmlStyle) -> Seq<
    char,
> {
    if lines.len() == 0 {
        Seq::empty()
    } else {
        "<pre class=\""@ + class + "\""@ + spec_to_attr(st) + "><code>"@ + join(
            html_views(lines),
            "\n"@,
        ) + "</code></pre>\n"@
    }
}

/// Wraps the lines' markup in a `<pre class="{css_class}">` block; nothing
/// for no lines.
pub fn render_lines_to_html(lines: &[RenderedLine], css_class: &str, style: &HtmlStyle) -> (r:
    String)
    ensures
        r@ == spec_pre_block(lines@, css_class@, *style),
{
    if lines.len() == 0 {
        return String::new();
    }
    let inner = join_lines(lines, false, "\n");
    let style_attr = style.to_attr();
    let mut r = String::new();
    r.append("<pre class=\"");
    r.append(css_class);
    r.append("\"");
    r.append(style_attr.as_str());
    r.append("><code>");
    r.append(inner.as_str());
    r.append("</code></pre>\n");
    r
}

/// Wraps a captured screen in a `<pre class="term-screen">` block; nothing
/// for no lines.
pub fn render_fullscreen_to_html(lines: &[RenderedLine], style: &HtmlStyle) -> (r: String)
    ensures
        r@ == spec_pre_block(lines@, "term-screen"@, *style),
{
    render_lines_to_html(lines, "term-screen", style)
}

} // verus!

verus! {

/// The color declarations of a pen: text color then background, swapped
/// under inverse video, falling back to the theme's colors there.
pub open spec fn pen_color_parts(p: Pen) -> Seq<Seq<char>> {
    let fg = if p.inverse { p.background } else { p.foreground };
    let bg = if p.inverse { p.foreground } else { p.background };
    let fg_part: Seq<Seq<char>> = match fg {
        Some(c) => seq!["color:"@ + spec_color_to_css(c)],
        None => if p.inverse { seq!["color:var(--term-bg, #000)"@] } else { Seq::empty() },
    };
    let bg_part: Seq<Seq<char>> = match bg {
        Some(c) => seq!["background:"@ + spec_color_to_css(c)],
        None => if p.inverse { seq!["background:var(--term-fg, #fff)"@] } else { Seq::empty() },
    };
    fg_part + bg_part
}

/// The font declarations of a pen: bold, faint, italic, text decoration.
pub open spec fn pen_font_parts(p: Pen) -> Seq<Seq<char>> {
    let bold: Seq<Seq<char>> = if p.bold { seq!["font-weight:bold"@] } else { Seq::empty() };
    let faint: Seq<Seq<char>> = if p.faint { seq!["opacity:0.5"@] } else { Seq::empty() };
    let italic: Seq<Seq<char>> = if p.italic { seq!["font-style:italic"@] } else { Seq::empty() };
    let deco: Seq<Seq<char>> = if p.underline && p.strikethrough {
        seq!["text-decoration:underline line-through"@]
    } else if p.underline {
        seq!["text-decoration:underline"@]
    } else if p.strikethrough {
        seq!["text-decoration:line-through"@]
    } else {
        Seq::empty()
    };
    bold + faint + italic + deco
}

/// All CSS declarations of a pen, in order.
pub open spec fn pen_style_parts(p: Pen) -> Seq<Seq<char>> {
    pen_color_parts(p) + pen_font_parts(p)
}

/// The inline CSS of a pen.
pub open spec fn spec_pen_to_style(p: Pen) -> Seq<char> {
    join(pen_style_parts(p), ";"@)
}

fn push_part(parts: &mut Vec<String>, s: String)
    ensures
        strings_view(final(parts)@) == strings_view(old(parts)@).push(s@),
{
    let ghost before = strings_view(parts@);
    parts.push(s);
    assert(strings_view(parts@) =~= before.push(s@));
}

fn lit(s: &str) -> (r: String)
    ensures
        r@ == s@,
{
    let mut r = String::new();
    r.append(s);
    r
}

fn prefixed(prefix: &str, body: String) -> (r: String)
    ensures
        r@ == prefix@ + body@,
{
    let mut r = String::new();
    r.append(prefix);
    r.append(body.as_str());
    r
}

fn push_color_parts(parts: &mut Vec<String>, pen: &Pen)
    ensures
        strings_view(final(parts)@) == strings_view(old(parts)@) + pen_color_parts(*pen),
{
    let ghost p0 = strings_view(parts@);
    let (fg, bg) = if pen.inverse {
        (pen.background, pen.foreground)
    } else {
        (pen.foreground, pen.background)
    };
    match fg {
        Some(c) => push_part(parts, prefixed("color:", color_to_css(c))),
        None => if pen.inverse {
            push_part(parts, lit("color:var(--term-bg, #000)"));
        },
    }
    match bg {
        Some(c) => push_part(parts, prefixed("background:", color_to_css(c))),
        None => if pen.inverse {
            push_part(parts, lit("background:var(--term-fg, #fff)"));
        },
    }
    assert(strings_view(parts@) =~= p0 + pen_color_parts(*pen));
}

fn push_font_parts(parts: &mut Vec<String>, pen: &Pen)
    ensures
        strings_view(final(parts)@) == strings_view(old(parts)@) + pen_font_parts(*pen),
{
    let ghost p0 = strings_view(parts@);
    if pen.bold {
        push_part(parts, lit("font-weight:bold"));
    }
    if pen.faint {
        push_part(parts, lit("opacity:0.5"));
    }
    if pen.italic {
        push_part(parts, lit("font-style:italic"));
    }
    if pen.underline && pen.strikethrough {
        push_part(parts, lit("text-decoration:underline line-through"));
    } else if pen.underline {
        push_part(parts, lit("text-decoration:underline"));
    } else if pen.strikethrough {
        push_part(parts, lit("text-decoration:line-through"));
    }
    assert(strings_view(parts@) =~= p0 + pen_font_parts(*pen));
}

/// The inline CSS of a pen: its declarations joined with `;`.
pub fn pen_to_style(pen: &Pen) -> (r: String)
    ensures
        r@ == spec_pen_to_style(*pen),
{
    let mut parts: Vec<String> = Vec::new();
    assert(strings_view(parts@) =~= Seq::<Seq<char>>::empty());
    push_color_parts(&mut parts, pen);
    push_font_parts(&mut parts, pen);
    assert(strings_view(parts@) =~= pen_style_parts(*pen));
    join_strings(&parts, ";")
}

/// The markup of one style run.
pub open spec fn html_run(run: (Seq<char>, Pen)) -> Seq<char> {
    let esc = spec_html_escape(run.0);
    let style = spec_pen_to_style(run.1);
    if pen_is_default(run.1) || style.len() == 0 {
        esc
    } else {
        "<span style=\""@ + style + "\">"@ + esc + "</span>"@
    }
}

/// The HTML markup of a line: escaped text, with ANSI styling as `<span>`s
/// when `ansi` holds, and trailing whitespace removed unless
/// `trailing_spaces` holds.
pub open spec fn spec_render_line_html(cells: Seq<TermCell>, ansi: bool, trailing: bool) -> Seq<
    char,
> {
    if !ansi {
        spec_html_escape(
            if trailing {
                spec_line_text_raw(cells)
            } else {
                spec_line_text(cells)
            },
        )
    } else {
        let runs = spec_styled_runs(cells);
        if runs.len() == 0 {
            Seq::empty()
        } else {
            let h = flat_map(runs, |r: (Seq<char>, Pen)| html_run(r));
            if trailing {
                h
            } else {
                trim_end_seq(h)
            }
        }
    }
}

/// Renders one terminal line to HTML.
pub fn render_line(line: &[TermCell], ansi: bool, trailing_spaces: bool) -> (r: RenderedLine)
    ensures
        r.text@ == spec_line_text(line@),
        r.html@ == spec_render_line_html(line@, ansi, trailing_spaces),
{
    let text = line_to_text(line);
    if !ansi {
        let html = if trailing_spaces {
            html_escape(line_to_text_raw(line).as_str())
        } else {
            html_escape(text.as_str())
        };
        return RenderedLine { html, text };
    }
    let (runs, pens) = styled_runs(line);
    if runs.len() == 0 {
        return RenderedLine { html: String::new(), text };
    }
    let ghost rv = spec_styled_runs(line@);
    let mut html = String::new();
    let mut k: usize = 0;
    while k < runs.len()
        invariant
            k <= runs.len(),
            runs.len() == pens.len(),
            rv == crate::terminal_line::runs_view(runs@, pens@),
            forall|m: int|
                0 <= m < runs.len() ==> (#[trigger] runs@[m]).pen_idx == m
                    && runs@[m].is_default == pen_is_default(pens@[m]),
            html@ == flat_map(rv.take(k as int), |r: (Seq<char>, Pen)| html_run(r)),
        decreases runs.len() - k,
    {
        proof {
            lemma_flat_map_take(rv, |r: (Seq<char>, Pen)| html_run(r), k as int);
        }
        let run = &runs[k];
        let esc = html_escape(run.text.as_str());
        if run.is_default {
            html.append(esc.as_str());
        } else {
            let style = pen_to_style(&pens[run.pen_idx]);
            if style.as_str().is_empty() {
                html.append(esc.as_str());
            } else {
                html.append("<span style=\"");
                html.append(style.as_str());
                html.append("\">");
                html.append(esc.as_str());
                html.append("</span>");
            }
        }
        k += 1;
    }
    proof {
        lemma_take_full(rv);
    }
    let html = if trailing_spaces {
        html
    } else {
        trim_trailing_spaces_html(html.as_str())
    };
    RenderedLine { html, text }
}

/// Escaped text holds no `<`, `>` or `"`: it cannot open or close a tag
/// or end an attribute value.
pub proof fn law_html_escape_inert(s: Seq<char>)
    ensures
        forall|i: int|
            0 <= i < spec_html_escape(s).len() ==> #[trigger] spec_html_escape(s)[i] != '<'
                && spec_html_escape(s)[i] != '>' && spec_html_escape(s)[i] != '"',
    decreases s.len(),
{
    if s.len() > 0 {
        law_html_escape_inert(s.drop_last());
        reveal_strlit("&amp;");
        reveal_strlit("&lt;");
        reveal_strlit("&gt;");
        reveal_strlit("&quot;");
        let prev = spec_html_escape(s.drop_last());
        let last = html_char_esc(s.last());
        assert(spec_html_escape(s) == prev + last);
        assert forall|i: int| 0 <= i < (prev + last).len() implies (prev + last)[i] != '<' && (prev
            + last)[i] != '>' && (prev + last)[i] != '"' by {
            if i < prev.len() {
                assert((prev + last)[i] == prev[i]);
            } else {
                assert((prev + last)[i] == last[i - prev.len()]);
            }
        }
    }
}

/// Where the span around a prompt of `n` visible characters closes: after
/// the `n`-th visible character of the markup, scanning from `i`. Tags take
/// no room and an entity (`&...;`) counts as one character; markup with
/// fewer visible characters is taken whole.
pub open spec fn prompt_cut(h: Seq<char>, i: int, n: nat, in_tag: bool, in_entity: bool) -> int
    decreases h.len() - i,
{
    if n == 0 && !in_tag && !in_entity {
        i
    } else if i < 0 || i >= h.len() {
        h.len() as int
    } else {
        let c = h[i];
        if in_tag {
            prompt_cut(h, i + 1, n, c != '>', false)
        } else if in_entity {
            if c == ';' {
                prompt_cut(h, i + 1, (n - 1) as nat, false, false)
            } else {
                prompt_cut(h, i + 1, n, false, true)
            }
        } else if c == '<' {
            prompt_cut(h, i + 1, n, true, false)
        } else if c == '&' {
            prompt_cut(h, i + 1, n, false, true)
        } else {
            prompt_cut(h, i + 1, (n - 1) as nat, false, false)
        }
    }
}

/// The markup with its first `n` visible characters (the prompt) inside a
/// `term-prompt` span.
pub open spec fn spec_wrap_prompt(h: Seq<char>, n: nat) -> Seq<char> {
    let k = prompt_cut(h, 0, n, false, false);
    "<span class=\"term-prompt\">"@ + h.take(k) + "</span>"@ + h.skip(k)
}

/// Wraps the first `n` visible characters of a line's markup, its prompt,
/// in a `term-prompt` span.
pub fn wrap_prompt_span(html: &str, n: usize) -> (r: String)
    ensures
        r@ == spec_wrap_prompt(html@, n as nat),
{
    let v = str_chars(html);
    let mut i: usize = 0;
    let mut k: usize = n;
    let mut in_tag = false;
    let mut in_entity = false;
    while (k != 0 || in_tag || in_entity) && i < v.len()
        invariant
            i <= v.len(),
            v@ == html@,
            prompt_cut(v@, 0, n as nat, false, false) == prompt_cut(
                v@,
                i as int,
                k as nat,
                in_tag,
                in_entity,
            ),
            in_tag ==> k > 0,
            in_entity ==> k > 0,
            !(in_tag && in_entity),
        decreases v.len() - i,
    {
        let c = v[i];
        if in_tag {
            in_tag = c != '>';
        } else if in_entity {
            if c == ';' {
                k -= 1;
                in_entity = false;
            }
        } else if c == '<' {
            in_tag = true;
        } else if c == '&' {
            in_entity = true;
        } else {
            k -= 1;
        }
        i += 1;
    }
    assert(prompt_cut(v@, 0, n as nat, false, false) == i as int);
    let mut r = String::new();
    r.append("<span class=\"term-prompt\">");
    let head = slice_vec(&v, 0, i);
    let tail = slice_vec(&v, i, v.len());
    let hs = chars_to_string(&head);
    let ts = chars_to_string(&tail);
    r.append(hs.as_str());
    r.append("</span>");
    r.append(ts.as_str());
    assert(head@ =~= html@.take(i as int));
    assert(tail@ =~= html@.skip(i as int));
    r
}

/// The text decoration of a pen's style names exactly the decorations it
/// has: an underlined pen without strike-through ends with the single
/// declaration `text-decoration:underline`, a struck-through pen without
/// underline with `text-decoration:line-through`, a pen with both with
/// `text-decoration:underline line-through`, and a pen with neither has
/// no decoration (its declarations are those of the same pen's bold,
/// faint and italic alone). Adding underline to a pen without decoration
/// appends exactly that declaration.
pub proof fn law_text_decoration(p: Pen)
    ensures
        p.underline && !p.strikethrough ==> pen_font_parts(p).last() == seq![
            't', 'e', 'x', 't', '-', 'd', 'e', 'c', 'o', 'r', 'a', 't', 'i', 'o', 'n', ':', 'u',
            'n', 'd', 'e', 'r', 'l', 'i', 'n', 'e',
        ],
        p.strikethrough && !p.underline ==> pen_font_parts(p).last() == seq![
            't', 'e', 'x', 't', '-', 'd', 'e', 'c', 'o', 'r', 'a', 't', 'i', 'o', 'n', ':', 'l',
            'i', 'n', 'e', '-', 't', 'h', 'r', 'o', 'u', 'g', 'h',
        ],
        p.underline && p.strikethrough ==> pen_font_parts(p).last() == seq![
            't', 'e', 'x', 't', '-', 'd', 'e', 'c', 'o', 'r', 'a', 't', 'i', 'o', 'n', ':', 'u',
            'n', 'd', 'e', 'r', 'l', 'i', 'n', 'e', ' ', 'l', 'i', 'n', 'e', '-', 't', 'h', 'r',
            'o', 'u', 'g', 'h',
        ],
        !p.underline && !p.strikethrough ==> pen_font_parts(
            (Pen { underline: true, ..p }),
        ) == pen_font_parts(p).push(
            seq![
                't', 'e', 'x', 't', '-', 'd', 'e', 'c', 'o', 'r', 'a', 't', 'i', 'o', 'n', ':',
                'u', 'n', 'd', 'e', 'r', 'l', 'i', 'n', 'e',
            ],
        ),
{
    reveal_strlit("text-decoration:underline");
    reveal_strlit("text-decoration:line-through");
    reveal_strlit("text-decoration:underline line-through");
    assert("text-decoration:underline"@ =~= seq![
        't', 'e', 'x', 't', '-', 'd', 'e', 'c', 'o', 'r', 'a', 't', 'i', 'o', 'n', ':', 'u', 'n',
        'd', 'e', 'r', 'l', 'i', 'n', 'e',
    ]);
    assert("text-decoration:line-through"@ =~= seq![
        't', 'e', 'x', 't', '-', 'd', 'e', 'c', 'o', 'r', 'a', 't', 'i', 'o', 'n', ':', 'l', 'i',
        'n', 'e', '-', 't', 'h', 'r', 'o', 'u', 'g', 'h',
    ]);
    assert("text-decoration:underline line-through"@ =~= seq![
        't', 'e', 'x', 't', '-', 'd', 'e', 'c', 'o', 'r', 'a', 't', 'i', 'o', 'n', ':', 'u', 'n',
        'd', 'e', 'r', 'l', 'i', 'n', 'e', ' ', 'l', 'i', 'n', 'e', '-', 't', 'h', 'r', 'o', 'u',
        'g', 'h',
    ]);
    if !p.underline && !p.strikethrough {
        let q = (Pen { underline: true, ..p });
        assert(pen_font_parts(q) =~= pen_font_parts(p).push("text-decoration:underline"@));
    }
}

/// A pen's style declares bold, italic and faint exactly when the pen has
/// them: `font-weight:bold`, `font-style:italic`, `opacity:0.5`.
pub proof fn law_font_attributes(p: Pen)
    ensures
        pen_font_parts(p).contains(seq![
            'f', 'o', 'n', 't', '-', 'w', 'e', 'i', 'g', 'h', 't', ':', 'b', 'o', 'l', 'd',
        ]) <==> p.bold,
        pen_font_parts(p).contains(seq![
            'f', 'o', 'n', 't', '-', 's', 't', 'y', 'l', 'e', ':', 'i', 't', 'a', 'l', 'i', 'c',
        ]) <==> p.italic,
{
    reveal_strlit("font-weight:bold");
    reveal_strlit("font-style:italic");
    reveal_strlit("opacity:0.5");
    reveal_strlit("text-decoration:underline");
    reveal_strlit("text-decoration:line-through");
    reveal_strlit("text-decoration:underline line-through");
    let parts = pen_font_parts(p);
    let bold = seq!['f', 'o', 'n', 't', '-', 'w', 'e', 'i', 'g', 'h', 't', ':', 'b', 'o', 'l', 'd'];
    let italic = seq!['f', 'o', 'n', 't', '-', 's', 't', 'y', 'l', 'e', ':', 'i', 't', 'a', 'l', 'i', 'c'];
    assert("font-weight:bold"@ =~= bold);
    assert("font-style:italic"@ =~= italic);
    if p.bold {
        assert(parts[0] == bold);
    }
    if p.italic {
        let k = (if p.bold { 1int } else { 0 }) + (if p.faint { 1int } else { 0 });
        assert(parts[k] == italic);
    }
    assert forall|i: int| 0 <= i < parts.len() && parts[i] == bold implies p.bold by {
        if !p.bold {
            assert(parts[i][5] != bold[5] || parts[i].len() != bold.len());
        }
    }
    assert forall|i: int| 0 <= i < parts.len() && parts[i] == italic implies p.italic by {
        if !p.italic {
            assert(parts[i][6] != italic[6] || parts[i].len() != italic.len());
        }
    }
}

} // verus!
