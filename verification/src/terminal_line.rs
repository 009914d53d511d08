//! The cell model of one terminal line, and its decomposition into text and
//! style runs.
use vstd::prelude::*;
use crate::color::Color;
use crate::text::{push_char, trim_end_len, trim_end_seq};

verus! {

/// The graphic rendition of a cell.
#[derive(Clone, Copy, Debug, PartialEq, Eq, Structural)]
pub struct Pen {
    pub foreground: Option<Color>,
    pub background: Option<Color>,
    pub bold: bool,
    pub faint: bool,
    pub italic: bool,
    pub underline: bool,
    pub strikethrough: bool,
    pub blink: bool,
    pub inverse: bool,
}

/// One cell of a terminal line: its character, its display width (0 for
/// the tail of a wide character) and its pen.
#[derive(Clone, Copy, Debug, PartialEq, Eq, Structural)]
pub struct TermCell {
    pub ch: char,
    pub width: u8,
    pub pen: Pen,
}

/// A run of consecutive cells drawn with the same pen.
pub struct StyledRun {
    pub text: String,
    pub is_default: bool,
    pub pen_idx: usize,
}

impl Default for Pen {
    /// The pen of an untouched cell: no colors, no attributes.
    fn default() -> (p: Pen)
        ensures
            pen_is_default(p),
    {
        Pen {
            foreground: None,
            background: None,
            bold: false,
            faint: false,
            italic: false,
            underline: false,
            strikethrough: false,
            blink: false,
            inverse: false,
        }
    }
}

/// Whether a pen carries no attribute at all.
pub open spec fn pen_is_default(p: Pen) -> bool {
    &&& p.foreground is None
    &&& p.background is None
    &&& !p.bold
    &&& !p.faint
    &&& !p.italic
    &&& !p.underline
    &&& !p.strikethrough
    &&& !p.blink
    &&& !p.inverse
}

/// Two pens draw alike: same colors and attributes (blinking aside).
pub open spec fn spec_pens_equal(a: Pen, b: Pen) -> bool {
    &&& a.foreground == b.foreground
    &&& a.background == b.background
    &&& a.bold == b.bold
    &&& a.faint == b.faint
    &&& a.italic == b.italic
    &&& a.underline == b.underline
    &&& a.strikethrough == b.strikethrough
    &&& a.inverse == b.inverse
}

/// The character a cell shows (NUL shows as a space).
pub open spec fn cell_char(c: TermCell) -> char {
    if c.ch == '\0' {
        ' '
    } else {
        c.ch
    }
}

/// Characters of the visible cells, trailing blanks included.
pub open spec fn spec_line_text_raw(cells: Seq<TermCell>) -> Seq<char>
    decreases cells.len(),
{
    if cells.len() == 0 {
        Seq::empty()
    } else {
        let prev = spec_line_text_raw(cells.drop_last());
        if cells.last().width > 0 {
            prev.push(cell_char(cells.last()))
        } else {
            prev
        }
    }
}

/// The line's text without trailing whitespace.
pub open spec fn spec_line_text(cells: Seq<TermCell>) -> Seq<char> {
    trim_end_seq(spec_line_text_raw(cells))
}

/// Index just past the run of cells, from `j` on, whose pens draw like `pen`.
pub open spec fn run_end(cells: Seq<TermCell>, pen: Pen, j: int) -> int
    decreases cells.len() - j,
{
    if 0 <= j < cells.len() && spec_pens_equal(cells[j].pen, pen) {
        run_end(cells, pen, j + 1)
    } else {
        j
    }
}

/// The style runs of `cells` from index `i` on: for each maximal group of
/// consecutive cells drawing alike, its visible text and the pen of its
/// first cell; groups without visible text are left out.
pub open spec fn runs_from(cells: Seq<TermCell>, i: int) -> Seq<(Seq<char>, Pen)>
    decreases cells.len() - i, 1int,
{
    if i < 0 || i >= cells.len() {
        Seq::empty()
    } else {
        let pen = cells[i].pen;
        let j = run_end(cells, pen, i + 1);
        proof {
            lemma_run_end_ge(cells, pen, i + 1);
        }
        if j <= i {
            Seq::empty()
        } else {
            let text = spec_line_text_raw(cells.subrange(i, j));
            let rest = runs_from(cells, j);
            if text.len() > 0 {
                seq![(text, pen)] + rest
            } else {
                rest
            }
        }
    }
}

/// The style runs of a whole line.
pub open spec fn spec_styled_runs(cells: Seq<TermCell>) -> Seq<(Seq<char>, Pen)> {
    runs_from(cells, 0)
}

pub proof fn lemma_run_end_ge(cells: Seq<TermCell>, pen: Pen, j: int)
    ensures
        run_end(cells, pen, j) >= j,
        0 <= j <= cells.len() ==> run_end(cells, pen, j) <= cells.len(),
    decreases cells.len() - j,
{
    if 0 <= j < cells.len() && spec_pens_equal(cells[j].pen, pen) {
        lemma_run_end_ge(cells, pen, j + 1);
    }
}

proof fn lemma_run_end_at(cells: Seq<TermCell>, pen: Pen, k: int, j: int)
    requires
        0 <= k <= j <= cells.len(),
        forall|m: int| k <= m < j ==> spec_pens_equal(#[trigger] cells[m].pen, pen),
        j == cells.len() || !spec_pens_equal(cells[j].pen, pen),
    ensures
        run_end(cells, pen, k) == j,
    decreases j - k,
{
    if k < j {
        lemma_run_end_at(cells, pen, k + 1, j);
    }
}

/// Whether two pens draw alike.
pub fn pens_equal(a: &Pen, b: &Pen) -> (r: bool)
    ensures
        r == spec_pens_equal(*a, *b),
{
    a.foreground == b.foreground && a.background == b.background && a.bold == b.bold && a.faint
        == b.faint && a.italic == b.italic && a.underline == b.underline && a.strikethrough
        == b.strikethrough && a.inverse == b.inverse
}

/// Whether a pen carries no attribute.
pub fn pen_default(p: &Pen) -> (r: bool)
    ensures
        r == pen_is_default(*p),
{
    p.foreground.is_none() && p.background.is_none() && !p.bold && !p.faint && !p.italic
        && !p.underline && !p.strikethrough && !p.blink && !p.inverse
}

proof fn lemma_raw_push(cells: Seq<TermCell>, c: TermCell)
    ensures
        spec_line_text_raw(cells.push(c)) == if c.width > 0 {
            spec_line_text_raw(cells).push(cell_char(c))
        } else {
            spec_line_text_raw(cells)
        },
{
    assert(cells.push(c).drop_last() =~= cells);
}

/// Characters of the visible cells, trailing blanks included.
pub fn line_to_text_raw_chars(line: &[TermCell]) -> (v: Vec<char>)
    ensures
        v@ == spec_line_text_raw(line@),
{
    let mut v: Vec<char> = Vec::new();
    let mut i: usize = 0;
    while i < line.len()
        invariant
            i <= line.len(),
            v@ == spec_line_text_raw(line@.take(i as int)),
        decreases line.len() - i,
    {
        let c = line[i];
        proof {
            lemma_raw_push(line@.take(i as int), c);
            assert(line@.take(i as int).push(c) =~= line@.take(i as int + 1));
        }
        if c.width > 0 {
            v.push(if c.ch == '\0' { ' ' } else { c.ch });
        }
        i += 1;
    }
    assert(line@.take(line.len() as int) =~= line@);
    v
}

fn string_of(v: &[char], n: usize) -> (s: String)
    requires
        n <= v.len(),
    ensures
        s@ == v@.take(n as int),
{
    let mut s = String::new();
    let mut i: usize = 0;
    while i < n
        invariant
            n <= v.len(),
            i <= n,
            s@ == v@.take(i as int),
        decreases n - i,
    {
        push_char(&mut s, v[i]);
        assert(v@.take(i as int + 1) == v@.take(i as int).push(v@[i as int]));
        i += 1;
    }
    s
}

/// The visible characters of a line, trailing blanks included.
pub fn line_to_text_raw(line: &[TermCell]) -> (s: String)
    ensures
        s@ == spec_line_text_raw(line@),
{
    let v = line_to_text_raw_chars(line);
    let s = string_of(&v, v.len());
    assert(v@.take(v.len() as int) =~= v@);
    s
}

/// The visible characters of a line without trailing whitespace.
pub fn line_to_text(line: &[TermCell]) -> (s: String)
    ensures
        s@ == spec_line_text(line@),
{
    let v = line_to_text_raw_chars(line);
    let k = trim_end_len(&v);
    string_of(&v, k)
}

} // verus!

verus! {

/// The pen-and-text view of a list of runs.
pub open spec fn runs_view(runs: Seq<StyledRun>, pens: Seq<Pen>) -> Seq<(Seq<char>, Pen)> {
    Seq::new(runs.len(), |k: int| (runs[k].text@, pens[k]))
}

/// Splits a line into style runs: maximal groups of consecutive cells that
/// draw alike, each with its visible text; groups without visible text are
/// dropped. The pens are returned beside the runs, `pen_idx` pointing into
/// them.
pub fn styled_runs(line: &[TermCell]) -> (res: (Vec<StyledRun>, Vec<Pen>))
    ensures
        res.0.len() == res.1.len(),
        runs_view(res.0@, res.1@) == spec_styled_runs(line@),
        forall|k: int|
            0 <= k < res.0.len() ==> (#[trigger] res.0@[k]).pen_idx == k
                && res.0@[k].is_default == pen_is_default(res.1@[k]),
{
    let mut runs: Vec<StyledRun> = Vec::new();
    let mut pens: Vec<Pen> = Vec::new();
    let mut i: usize = 0;
    while i < line.len()
        invariant
            i <= line.len(),
            runs.len() == pens.len(),
            forall|k: int|
                0 <= k < runs.len() ==> (#[trigger] runs@[k]).pen_idx == k
                    && runs@[k].is_default == pen_is_default(pens@[k]),
            spec_styled_runs(line@) == runs_view(runs@, pens@) + runs_from(line@, i as int),
        decreases line.len() - i,
    {
        let pen = line[i].pen;
        let mut chunk = String::new();
        let mut j = i;
        while j < line.len() && pens_equal(&line[j].pen, &pen)
            invariant
                i <= j <= line.len(),
                i < line.len(),
                pen == line@[i as int].pen,
                forall|m: int| i <= m < j ==> spec_pens_equal(#[trigger] line@[m].pen, pen),
                chunk@ == spec_line_text_raw(line@.subrange(i as int, j as int)),
            decreases line.len() - j,
        {
            let c = line[j];
            proof {
                lemma_raw_push(line@.subrange(i as int, j as int), c);
                assert(line@.subrange(i as int, j as int).push(c) =~= line@.subrange(
                    i as int,
                    j + 1,
                ));
            }
            if c.width > 0 {
                push_char(&mut chunk, if c.ch == '\0' { ' ' } else { c.ch });
            }
            j += 1;
        }
        proof {
            assert(j > i);
            lemma_run_end_at(line@, pen, i + 1, j as int);
            lemma_run_end_ge(line@, pen, i + 1);
        }
        let ghost before = runs_view(runs@, pens@);
        if !chunk.as_str().is_empty() {
            let pen_idx = pens.len();
            let is_default = pen_default(&pen);
            pens.push(pen);
            runs.push(StyledRun { text: chunk, is_default, pen_idx });
            assert(runs_view(runs@, pens@) =~= before + seq![
                (spec_line_text_raw(line@.subrange(i as int, j as int)), pen),
            ]);
        }
        i = j;
    }
    assert(runs_view(runs@, pens@) + runs_from(line@, i as int) =~= runs_view(runs@, pens@));
    (runs, pens)
}

} // verus!
