//! The decisions of a terminal session that are not I/O: selecting,
//! removing, truncating and annotating captured lines, spacing commands,
//! and the typing model's key neighbourhoods.
use vstd::prelude::*;
use crate::pattern::{regex_is_match, regex_match, regex_valid};
use crate::protocol::LineSpec;
use crate::renderer::RenderedLine;
use crate::text::{
    is_digit, parse_i32, slice_vec, spec_parse_i32, str_chars, trim_chars, trim_seq,
};

verus! {

/// The 0-based index of the 1-based line number `i` (negative: counted
/// from the end), if it falls inside `len` lines.
pub open spec fn spec_resolve_single_index(i: i32, len: int) -> Option<usize> {
    if i > 0 {
        if i - 1 < len {
            Some((i - 1) as usize)
        } else {
            None
        }
    } else if i < 0 {
        let idx = len + i;
        if 0 <= idx < len {
            Some(idx as usize)
        } else {
            None
        }
    } else {
        None
    }
}

/// Resolves a 1-based (or negative, from the end) line number.
pub fn resolve_single_index(i: i32, len: usize) -> (r: Option<usize>)
    requires
        len <= i32::MAX,
    ensures
        r == spec_resolve_single_index(i, len as int),
{
    if i > 0 {
        let idx = (i - 1) as usize;
        if idx < len {
            Some(idx)
        } else {
            None
        }
    } else if i < 0 {
        let idx = len as i32 + i;
        if idx >= 0 && (idx as usize) < len {
            Some(idx as usize)
        } else {
            None
        }
    } else {
        None
    }
}

/// Characters of the `start:end` range syntax.
pub open spec fn range_char(c: char) -> bool {
    is_digit(c) || c == ':' || c == '-' || c == ' '
}

/// Whether `s` looks like a `start:end` range: it holds a `:` and only
/// digits, `:`, `-` and spaces.
pub open spec fn spec_is_range_syntax(s: Seq<char>) -> bool {
    s.contains(':') && forall|i: int| 0 <= i < s.len() ==> range_char(#[trigger] s[i])
}

/// Whether the expression is in range syntax.
pub fn is_range_syntax_chars(v: &[char]) -> (b: bool)
    ensures
        b == spec_is_range_syntax(v@),
{
    let mut has_colon = false;
    let mut i: usize = 0;
    while i < v.len()
        invariant
            i <= v.len(),
            forall|k: int| 0 <= k < i ==> range_char(#[trigger] v@[k]),
            has_colon == v@.take(i as int).contains(':'),
        decreases v.len() - i,
    {
        let c = v[i];
        if !(('0' <= c && c <= '9') || c == ':' || c == '-' || c == ' ') {
            return false;
        }
        if c == ':' {
            has_colon = true;
            assert(v@.take(i + 1)[i as int] == ':');
        }
        proof {
            if !has_colon {
                assert forall|k: int| 0 <= k < i + 1 implies #[trigger] v@.take(i + 1)[k] != ':' by {
                    if k < i {
                        assert(v@.take(i as int)[k] == v@.take(i + 1)[k]);
                    }
                }
            } else if c != ':' {
                let k = choose|k: int| 0 <= k < i && v@.take(i as int)[k] == ':';
                assert(v@.take(i + 1)[k] == ':');
            }
        }
        i += 1;
    }
    assert(v@.take(v.len() as int) =~= v@);
    has_colon
}

/// Whether `s` is in range syntax.
pub fn is_range_syntax(s: &str) -> (b: bool)
    ensures
        b == spec_is_range_syntax(s@),
{
    is_range_syntax_chars(&str_chars(s))
}

/// Index of the first `c` in `s` at or after `from`.
pub open spec fn first_index_of(s: Seq<char>, c: char, from: int) -> Option<int>
    decreases s.len() - from,
{
    if from < 0 || from >= s.len() {
        None
    } else if s[from] == c {
        Some(from)
    } else {
        first_index_of(s, c, from + 1)
    }
}

/// Position of one end of a range: 1-based numbers count from the start,
/// negative ones from the end (clamped at 0), and 0 is the start.
pub open spec fn range_bound(v: i32, len: int) -> int {
    if v > 0 {
        v - 1
    } else if v < 0 {
        if len + v >= 0 {
            len + v
        } else {
            0
        }
    } else {
        0
    }
}

/// The half-open index range of a `start:end` expression before clamping
/// to the line count; `None` when there is no `:` or an end is not a number.
/// An empty start means the first line, an empty end the last; both ends
/// are inclusive line numbers.
pub open spec fn range_bounds(s: Seq<char>, len: int) -> Option<(int, int)> {
    match first_index_of(s, ':', 0) {
        None => None,
        Some(p) => {
            let a = trim_seq(s.take(p));
            let b = trim_seq(s.skip(p + 1));
            let start = if a.len() == 0 {
                Some(0i32)
            } else {
                spec_parse_i32(a)
            };
            let end = if b.len() == 0 {
                Some(0i32)
            } else {
                spec_parse_i32(b)
            };
            match (start, end) {
                (Some(x), Some(y)) => Some(
                    (
                        range_bound(x, len),
                        if b.len() == 0 {
                            len
                        } else {
                            range_bound(y, len) + 1
                        },
                    ),
                ),
                _ => None,
            }
        },
    }
}

/// The consecutive indices `from..to`.
pub open spec fn index_range(from: int, to: int) -> Seq<usize> {
    Seq::new((to - from) as nat, |k: int| (from + k) as usize)
}

/// The indices a `start:end` expression selects among `len` lines, in
/// increasing order.
pub open spec fn spec_parse_range_spec(s: Seq<char>, len: int) -> Seq<usize> {
    match range_bounds(s, len) {
        None => Seq::empty(),
        Some((a, b)) => {
            let start = if a < len {
                a
            } else {
                len
            };
            let end = if b < len {
                b
            } else {
                len
            };
            if start >= end {
                Seq::empty()
            } else {
                index_range(start, end)
            }
        },
    }
}

/// Where the first `c` at or after `from` stands.
pub proof fn lemma_first_index_of(s: Seq<char>, c: char, from: int)
    ensures
        first_index_of(s, c, from) matches Some(p) ==> 0 <= from <= p < s.len() && s[p] == c
            && forall|k: int| from <= k < p ==> s[k] != c,
    decreases s.len() - from,
{
    if 0 <= from < s.len() && s[from] != c {
        lemma_first_index_of(s, c, from + 1);
    }
}

fn find_char(v: &[char], c: char) -> (r: Option<usize>)
    ensures
        match first_index_of(v@, c, 0) {
            Some(p) => r == Some(p as usize),
            None => r is None,
        },
        r matches Some(p) ==> p < v.len() && first_index_of(v@, c, 0) == Some(p as int),
{
    proof {
        lemma_first_index_of(v@, c, 0);
    }
    let mut i: usize = 0;
    while i < v.len()
        invariant
            i <= v.len(),
            first_index_of(v@, c, i as int) == first_index_of(v@, c, 0),
        decreases v.len() - i,
    {
        if v[i] == c {
            return Some(i);
        }
        i += 1;
    }
    None
}

fn resolve_bound(v: i32, len: usize) -> (r: usize)
    requires
        len <= i32::MAX,
    ensures
        r == range_bound(v, len as int),
{
    if v > 0 {
        (v - 1) as usize
    } else if v < 0 {
        let r = len as i32 + v;
        if r >= 0 {
            r as usize
        } else {
            0
        }
    } else {
        0
    }
}

/// The indices a `start:end` expression selects among `len` lines.
pub fn parse_range_spec_chars(s: &[char], len: usize) -> (r: Vec<usize>)
    requires
        len <= i32::MAX,
    ensures
        r@ == spec_parse_range_spec(s@, len as int),
{
    let p = match find_char(s, ':') {
        Some(p) => p,
        None => return Vec::new(),
    };
    let a = trim_chars(&slice_vec(s, 0, p));
    let b = trim_chars(&slice_vec(s, p + 1, s.len()));
    assert(s@.subrange(0, p as int) =~= s@.take(p as int));
    assert(s@.subrange(p + 1, s.len() as int) =~= s@.skip(p + 1));
    let start: i32 = if a.len() == 0 {
        0
    } else {
        match parse_i32(&a) {
            Some(n) => n,
            None => return Vec::new(),
        }
    };
    let end: i32 = if b.len() == 0 {
        0
    } else {
        match parse_i32(&b) {
            Some(n) => n,
            None => return Vec::new(),
        }
    };
    let start_idx = resolve_bound(start, len);
    let end_idx = if b.len() == 0 {
        len
    } else {
        resolve_bound(end, len) + 1
    };
    let start_idx = if start_idx < len {
        start_idx
    } else {
        len
    };
    let end_idx = if end_idx < len {
        end_idx
    } else {
        len
    };
    let mut r: Vec<usize> = Vec::new();
    if start_idx >= end_idx {
        return r;
    }
    let mut k = start_idx;
    while k < end_idx
        invariant
            start_idx <= k <= end_idx,
            r@ == index_range(start_idx as int, k as int),
        decreases end_idx - k,
    {
        r.push(k);
        assert(r@ =~= index_range(start_idx as int, k + 1));
        k += 1;
    }
    r
}

/// The 0-based indices, in increasing order, that a `start:end` expression
/// selects among `len` lines; nothing when `s` is not such an expression.
pub fn parse_range_spec(s: &str, len: usize) -> (r: Vec<usize>)
    requires
        len <= i32::MAX,
    ensures
        r@ == spec_parse_range_spec(s@, len as int),
{
    parse_range_spec_chars(&str_chars(s), len)
}

} // verus!

verus! {

/// A rendered line as markup and text.
pub open spec fn line_view(l: RenderedLine) -> (Seq<char>, Seq<char>) {
    (l.html@, l.text@)
}

/// Rendered lines as markup and text.
pub open spec fn lines_view(ls: Seq<RenderedLine>) -> Seq<(Seq<char>, Seq<char>)> {
    ls.map_values(|l: RenderedLine| line_view(l))
}

/// The texts of rendered lines.
pub open spec fn line_texts(ls: Seq<RenderedLine>) -> Seq<Seq<char>> {
    ls.map_values(|l: RenderedLine| l.text@)
}

/// A copy of a rendered line.
pub fn copy_line(l: &RenderedLine) -> (r: RenderedLine)
    ensures
        line_view(r) == line_view(*l),
{
    RenderedLine { html: l.html.clone(), text: l.text.clone() }
}

/// What a line selector's regular expression finds in each line: `None`
/// for a number selector or a pattern that does not compile.
pub open spec fn spec_hits(spec: LineSpec, texts: Seq<Seq<char>>) -> Option<Seq<bool>> {
    match spec {
        LineSpec::Index(_) => None,
        LineSpec::Expr(s) => if regex_valid(s@) {
            Some(Seq::new(texts.len(), |j: int| regex_match(s@, texts[j])))
        } else {
            None
        },
    }
}

/// A pattern result as a sequence.
pub open spec fn opt_view(o: Option<Vec<bool>>) -> Option<Seq<bool>> {
    match o {
        Some(v) => Some(v@),
        None => None,
    }
}

/// Pattern results as sequences.
pub open spec fn hits_view(h: Seq<Option<Vec<bool>>>) -> Seq<Option<Seq<bool>>> {
    h.map_values(|o: Option<Vec<bool>>| opt_view(o))
}

/// What a regular expression finds in each line: `None` when it does not
/// compile.
pub fn pattern_hits(pattern: &str, lines: &[RenderedLine]) -> (r: Option<Vec<bool>>)
    ensures
        match r {
            Some(v) => regex_valid(pattern@) && v@ == Seq::new(
                lines.len() as nat,
                |j: int| regex_match(pattern@, line_texts(lines@)[j]),
            ),
            None => !regex_valid(pattern@),
        },
{
    if regex_is_match(pattern, "").is_none() {
        return None;
    }
    let ghost texts = line_texts(lines@);
    let mut v: Vec<bool> = Vec::new();
    let mut j: usize = 0;
    while j < lines.len()
        invariant
            j <= lines.len(),
            texts == line_texts(lines@),
            regex_valid(pattern@),
            v@ =~= Seq::new(j as nat, |i: int| regex_match(pattern@, texts[i])),
        decreases lines.len() - j,
    {
        let b = match regex_is_match(pattern, lines[j].text.as_str()) {
            Some(b) => b,
            None => false,
        };
        v.push(b);
        j += 1;
    }
    Some(v)
}

/// Matches each selector's expression, read as a regular expression,
/// against the text of every line.
pub fn match_patterns(specs: &[LineSpec], lines: &[RenderedLine]) -> (r: Vec<Option<Vec<bool>>>)
    ensures
        r.len() == specs.len(),
        forall|k: int|
            0 <= k < specs.len() ==> #[trigger] hits_view(r@)[k] == spec_hits(
                specs@[k],
                line_texts(lines@),
            ),
{
    let ghost texts = line_texts(lines@);
    let mut r: Vec<Option<Vec<bool>>> = Vec::new();
    let mut k: usize = 0;
    while k < specs.len()
        invariant
            k <= specs.len(),
            r.len() == k,
            texts == line_texts(lines@),
            forall|m: int| 0 <= m < k ==> #[trigger] hits_view(r@)[m] == spec_hits(specs@[m], texts),
        decreases specs.len() - k,
    {
        let h: Option<Vec<bool>> = match &specs[k] {
            LineSpec::Index(_) => None,
            LineSpec::Expr(s) => {
                let h = pattern_hits(s.as_str(), lines);
                proof {
                    if h is Some {
                        assert(h->0@ =~= Seq::new(texts.len(), |j: int| regex_match(s@, texts[j])));
                    }
                }
                h
            },
        };
        assert(match h {
            Some(v) => spec_hits(specs@[k as int], texts) == Some(v@),
            None => spec_hits(specs@[k as int], texts) is None,
        });
        let ghost before = r@;
        let ghost hg = h;
        r.push(h);
        proof {
            assert(r@[k as int] == hg);
            assert(hits_view(r@)[k as int] == spec_hits(specs@[k as int], texts));
            assert forall|m: int| 0 <= m < k + 1 implies #[trigger] hits_view(r@)[m] == spec_hits(
                specs@[m],
                texts,
            ) by {
                if m < k {
                    assert(r@[m] == before[m]);
                    assert(hits_view(r@)[m] == hits_view(before)[m]);
                }
            }
        }
        k += 1;
    }
    r
}

} // verus!

verus! {

/// The indices `j < n` that a pattern result marks, in increasing order.
pub open spec fn marked_upto(h: Seq<bool>, n: int) -> Seq<usize>
    decreases n,
{
    if n <= 0 {
        Seq::empty()
    } else {
        marked_upto(h, n - 1) + if n - 1 < h.len() && h[n - 1] {
            seq![(n - 1) as usize]
        } else {
            Seq::empty()
        }
    }
}

/// At most one index.
pub open spec fn opt_index(o: Option<usize>) -> Seq<usize> {
    match o {
        Some(i) => seq![i],
        None => Seq::empty(),
    }
}

/// The lines a selector picks among `len` lines, given what its pattern
/// finds: a number picks that line, a range its lines, and any other
/// expression the lines its pattern matches.
pub open spec fn spec_selected(spec: LineSpec, hits: Option<Seq<bool>>, len: int) -> Seq<usize> {
    match spec {
        LineSpec::Index(i) => opt_index(spec_resolve_single_index(i, len)),
        LineSpec::Expr(s) => match spec_parse_i32(s@) {
            Some(n) => opt_index(spec_resolve_single_index(n, len)),
            None => if spec_is_range_syntax(s@) {
                spec_parse_range_spec(s@, len)
            } else {
                match hits {
                    Some(h) => marked_upto(h, len),
                    None => Seq::empty(),
                }
            },
        },
    }
}

/// The pattern result of selector `k`, if any.
pub open spec fn hit_at(hits: Seq<Option<Seq<bool>>>, k: int) -> Option<Seq<bool>> {
    if 0 <= k < hits.len() {
        hits[k]
    } else {
        None
    }
}

/// Everything the selectors pick, selector after selector.
pub open spec fn all_selected(specs: Seq<LineSpec>, hits: Seq<Option<Seq<bool>>>, len: int) -> Seq<
    usize,
>
    decreases specs.len(),
{
    if specs.len() == 0 {
        Seq::empty()
    } else {
        all_selected(specs.drop_last(), hits, len) + spec_selected(
            specs.last(),
            hit_at(hits, specs.len() - 1),
            len,
        )
    }
}

/// Strictly increasing.
pub open spec fn strictly_increasing(s: Seq<usize>) -> bool {
    forall|a: int, b: int| 0 <= a < b < s.len() ==> s[a] < s[b]
}

/// `r` lists the values of `c` once each, in increasing order.
pub open spec fn sorted_unique_of(r: Seq<usize>, c: Seq<usize>) -> bool {
    strictly_increasing(r) && forall|x: usize| r.contains(x) <==> c.contains(x)
}

/// Inserts `x` into a strictly increasing vector unless present.
pub fn insert_sorted(v: &mut Vec<usize>, x: usize)
    requires
        strictly_increasing(old(v)@),
    ensures
        strictly_increasing(final(v)@),
        forall|y: usize|
            #![trigger final(v)@.contains(y)]
            #![trigger old(v)@.contains(y)]
            final(v)@.contains(y) <==> (old(v)@.contains(y) || y == x),
{
    let mut i: usize = 0;
    while i < v.len() && v[i] < x
        invariant
            i <= v.len(),
            v@ == old(v)@,
            forall|a: int| 0 <= a < i ==> v@[a] < x,
        decreases v.len() - i,
    {
        i += 1;
    }
    if i < v.len() && v[i] == x {
        assert(v@[i as int] == x);
        return;
    }
    let ghost old_v = v@;
    v.insert(i, x);
    proof {
        assert(v@ =~= old_v.take(i as int).push(x) + old_v.skip(i as int));
        assert forall|a: int, b: int| 0 <= a < b < v@.len() implies v@[a] < v@[b] by {
            if b < i {
            } else if b == i {
            } else if a < i {
            } else if a == i {
                assert(v@[b] == old_v[b - 1]);
                assert(old_v[i as int] >= x);
                if b - 1 > i {
                    assert(old_v[i as int] < old_v[b - 1]);
                }
            } else {
                assert(v@[a] == old_v[a - 1] && v@[b] == old_v[b - 1]);
            }
        }
        assert forall|y: usize| v@.contains(y) <==> (old_v.contains(y) || y == x) by {
            if v@.contains(y) {
                let a = choose|a: int| 0 <= a < v@.len() && #[trigger] v@[a] == y;
                if a < i {
                    assert(old_v[a] == y);
                } else if a > i {
                    assert(old_v[a - 1] == y);
                }
            }
            if old_v.contains(y) {
                let a = choose|a: int| 0 <= a < old_v.len() && #[trigger] old_v[a] == y;
                if a < i {
                    assert(v@[a] == y);
                } else {
                    assert(v@[a + 1] == y);
                }
            }
            if y == x {
                assert(v@[i as int] == x);
            }
        }
    }
}

fn insert_all(v: &mut Vec<usize>, xs: &Vec<usize>)
    requires
        strictly_increasing(old(v)@),
    ensures
        strictly_increasing(final(v)@),
        forall|y: usize|
            #![trigger final(v)@.contains(y)]
            #![trigger old(v)@.contains(y)]
            #![trigger xs@.contains(y)]
            final(v)@.contains(y) <==> (old(v)@.contains(y) || xs@.contains(y)),
{
    let ghost v0 = v@;
    let mut i: usize = 0;
    while i < xs.len()
        invariant
            i <= xs.len(),
            strictly_increasing(v@),
            forall|y: usize|
                #![trigger v@.contains(y)]
                #![trigger v0.contains(y)]
                #![trigger xs@.take(i as int).contains(y)]
                v@.contains(y) <==> (v0.contains(y) || xs@.take(i as int).contains(y)),
        decreases xs.len() - i,
    {
        let ghost prev = v@;
        insert_sorted(v, xs[i]);
        proof {
            assert forall|y: usize| xs@.take(i + 1).contains(y) <==> (xs@.take(i as int).contains(y)
                || y == xs@[i as int]) by {
                if xs@.take(i + 1).contains(y) {
                    let a = choose|a: int| 0 <= a < i + 1 && #[trigger] xs@.take(i + 1)[a] == y;
                    if a < i {
                        assert(xs@.take(i as int)[a] == y);
                    }
                }
                if xs@.take(i as int).contains(y) {
                    let a = choose|a: int| 0 <= a < i && #[trigger] xs@.take(i as int)[a] == y;
                    assert(xs@.take(i + 1)[a] == y);
                }
                if y == xs@[i as int] {
                    assert(xs@.take(i + 1)[i as int] == y);
                }
            }
            assert forall|y: usize| v@.contains(y) <==> (v0.contains(y) || xs@.take(i + 1).contains(
                y,
            )) by {
                assert(v@.contains(y) <==> (prev.contains(y) || y == xs@[i as int]));
                assert(prev.contains(y) <==> (v0.contains(y) || xs@.take(i as int).contains(y)));
            }
        }
        i += 1;
    }
    assert(xs@.take(xs.len() as int) =~= xs@);
}

fn marked_indices(h: &Vec<bool>, len: usize) -> (r: Vec<usize>)
    ensures
        r@ == marked_upto(h@, len as int),
{
    let mut r: Vec<usize> = Vec::new();
    let mut j: usize = 0;
    while j < len
        invariant
            j <= len,
            r@ == marked_upto(h@, j as int),
        decreases len - j,
    {
        if j < h.len() && h[j] {
            r.push(j);
        }
        assert(marked_upto(h@, j + 1) == marked_upto(h@, j as int) + if j < h@.len() && h@[j as int] {
            seq![j]
        } else {
            Seq::<usize>::empty()
        });
        assert(r@ =~= marked_upto(h@, j + 1));
        j += 1;
    }
    r
}

fn opt_vec(o: Option<usize>) -> (r: Vec<usize>)
    ensures
        r@ == opt_index(o),
{
    let mut r: Vec<usize> = Vec::new();
    if let Some(i) = o {
        r.push(i);
    }
    assert(r@ =~= opt_index(o));
    r
}

/// The lines one selector picks, given what its pattern finds.
pub fn selected_lines(spec: &LineSpec, hits: &Option<Vec<bool>>, len: usize) -> (r: Vec<usize>)
    requires
        len <= i32::MAX,
    ensures
        r@ == spec_selected(*spec, opt_view(*hits), len as int),
{
    match spec {
        LineSpec::Index(i) => opt_vec(resolve_single_index(*i, len)),
        LineSpec::Expr(s) => {
            let v = str_chars(s.as_str());
            match parse_i32(&v) {
                Some(n) => opt_vec(resolve_single_index(n, len)),
                None => {
                    if is_range_syntax_chars(&v) {
                        parse_range_spec_chars(&v, len)
                    } else {
                        match hits {
                            Some(h) => marked_indices(h, len),
                            None => Vec::new(),
                        }
                    }
                },
            }
        },
    }
}

/// The lines the selectors pick among `len` lines, given what each
/// selector's pattern finds: each index once, in increasing order.
pub fn resolve_line_specs_with(
    specs: &[LineSpec],
    hits: &Vec<Option<Vec<bool>>>,
    len: usize,
) -> (r: Vec<usize>)
    requires
        len <= i32::MAX,
    ensures
        sorted_unique_of(r@, all_selected(specs@, hits_view(hits@), len as int)),
{
    let ghost hv = hits_view(hits@);
    let mut r: Vec<usize> = Vec::new();
    let mut k: usize = 0;
    while k < specs.len()
        invariant
            k <= specs.len(),
            len <= i32::MAX,
            hv == hits_view(hits@),
            strictly_increasing(r@),
            forall|y: usize| r@.contains(y) <==> all_selected(specs@.take(k as int), hv, len as int).contains(y),
        decreases specs.len() - k,
    {
        let none: Option<Vec<bool>> = None;
        let h = if k < hits.len() { &hits[k] } else { &none };
        let sel = selected_lines(&specs[k], h, len);
        proof {
            assert(opt_view(*h) == hit_at(hv, k as int));
            assert(specs@.take(k + 1).drop_last() =~= specs@.take(k as int));
            let prev = all_selected(specs@.take(k as int), hv, len as int);
            assert(all_selected(specs@.take(k + 1), hv, len as int) == prev + sel@);
            assert forall|y: usize| (prev + sel@).contains(y) <==> (prev.contains(y)
                || sel@.contains(y)) by {
                if (prev + sel@).contains(y) {
                    let a = choose|a: int| 0 <= a < (prev + sel@).len() && #[trigger] (prev + sel@)[a] == y;
                    if a >= prev.len() {
                        assert(sel@[a - prev.len()] == y);
                    }
                }
                if prev.contains(y) {
                    let a = choose|a: int| 0 <= a < prev.len() && #[trigger] prev[a] == y;
                    assert((prev + sel@)[a] == y);
                }
                if sel@.contains(y) {
                    let a = choose|a: int| 0 <= a < sel@.len() && #[trigger] sel@[a] == y;
                    assert((prev + sel@)[a + prev.len()] == y);
                }
            }
        }
        let ghost prev_r = r@;
        insert_all(&mut r, &sel);
        proof {
            let prev = all_selected(specs@.take(k as int), hv, len as int);
            assert forall|y: usize| r@.contains(y) <==> all_selected(
                specs@.take(k + 1),
                hv,
                len as int,
            ).contains(y) by {
                assert(r@.contains(y) <==> (prev_r.contains(y) || sel@.contains(y)));
                assert(prev_r.contains(y) <==> prev.contains(y));
                assert((prev + sel@).contains(y) <==> (prev.contains(y) || sel@.contains(y)));
            }
        }
        k += 1;
    }
    assert(specs@.take(specs.len() as int) =~= specs@);
    r
}

/// The lines the selectors pick among the given lines: each index once, in
/// increasing order. Expressions that are neither numbers nor ranges are
/// matched as regular expressions against the lines' text.
pub fn resolve_line_specs(specs: &[LineSpec], lines: &[RenderedLine]) -> (r: Vec<usize>)
    requires
        lines.len() <= i32::MAX,
    ensures
        sorted_unique_of(
            r@,
            all_selected(
                specs@,
                Seq::new(specs.len() as nat, |k: int| spec_hits(specs@[k], line_texts(lines@))),
                lines.len() as int,
            ),
        ),
{
    let hits = match_patterns(specs, lines);
    assert(hits_view(hits@) =~= Seq::new(
        specs.len() as nat,
        |k: int| spec_hits(specs@[k], line_texts(lines@)),
    ));
    resolve_line_specs_with(specs, &hits, lines.len())
}

} // verus!

verus! {

/// A line as markup and text.
pub type LineView = (Seq<char>, Seq<char>);

/// The lines whose index is not listed in `drop`, in order.
pub open spec fn kept(ls: Seq<LineView>, drop: Seq<usize>) -> Seq<LineView>
    decreases ls.len(),
{
    if ls.len() == 0 {
        Seq::empty()
    } else {
        kept(ls.drop_last(), drop) + if drop.contains((ls.len() - 1) as usize) {
            Seq::empty()
        } else {
            seq![ls.last()]
        }
    }
}

/// A mask of the listed indices below `n`.
fn index_mask(r: &Vec<usize>, n: usize) -> (mask: Vec<bool>)
    ensures
        mask.len() == n,
        forall|j: int| 0 <= j < n ==> #[trigger] mask@[j] == r@.contains(j as usize),
{
    let mut mask: Vec<bool> = Vec::new();
    let mut j: usize = 0;
    while j < n
        invariant
            j <= n,
            mask.len() == j,
            forall|m: int| 0 <= m < j ==> !#[trigger] mask@[m],
        decreases n - j,
    {
        mask.push(false);
        j += 1;
    }
    let mut k: usize = 0;
    while k < r.len()
        invariant
            k <= r.len(),
            mask.len() == n,
            forall|m: int|
                0 <= m < n ==> #[trigger] mask@[m] == r@.take(k as int).contains(m as usize),
        decreases r.len() - k,
    {
        let x = r[k];
        if x < n {
            mask.set(x, true);
        }
        proof {
            assert forall|m: int| 0 <= m < n implies #[trigger] mask@[m] == r@.take(
                k + 1,
            ).contains(m as usize) by {
                let t1 = r@.take(k + 1);
                let t0 = r@.take(k as int);
                assert(t1 =~= t0.push(x));
                if t0.contains(m as usize) {
                    let a = choose|a: int| 0 <= a < t0.len() && #[trigger] t0[a] == m as usize;
                    assert(t1[a] == m as usize);
                }
                if t1.contains(m as usize) && m as usize != x {
                    let a = choose|a: int| 0 <= a < t1.len() && #[trigger] t1[a] == m as usize;
                    assert(t0[a] == m as usize);
                }
                if m as usize == x {
                    assert(t1[k as int] == x);
                }
            }
        }
        k += 1;
    }
    assert(r@.take(r.len() as int) =~= r@);
    mask
}

/// Removes the selected lines. Expressions that are neither numbers nor
/// ranges are matched as regular expressions against the lines' text.
pub fn apply_remove(lines: &mut Vec<RenderedLine>, specs: &[LineSpec])
    requires
        old(lines).len() <= i32::MAX,
    ensures
        lines_view(final(lines)@) == kept(
            lines_view(old(lines)@),
            all_selected(
                specs@,
                Seq::new(
                    specs.len() as nat,
                    |k: int| spec_hits(specs@[k], line_texts(old(lines)@)),
                ),
                old(lines).len() as int,
            ),
        ),
{
    let ghost lv = lines_view(lines@);
    let ghost drop = all_selected(
        specs@,
        Seq::new(specs.len() as nat, |k: int| spec_hits(specs@[k], line_texts(lines@))),
        lines.len() as int,
    );
    let to_remove = resolve_line_specs(specs, lines);
    let n = lines.len();
    let mask = index_mask(&to_remove, n);
    let mut out: Vec<RenderedLine> = Vec::new();
    let mut j: usize = 0;
    while j < n
        invariant
            j <= n == lines.len() == mask.len(),
            lv == lines_view(lines@),
            forall|m: int| 0 <= m < n ==> #[trigger] mask@[m] == drop.contains(m as usize),
            lines_view(out@) == kept(lv.take(j as int), drop),
        decreases n - j,
    {
        let ghost before = out@;
        if !mask[j] {
            out.push(copy_line(&lines[j]));
        }
        proof {
            assert(lv.take(j + 1).drop_last() =~= lv.take(j as int));
            assert(lv.take(j + 1).last() == lv[j as int]);
            assert(lines_view(out@) =~= kept(lv.take(j + 1), drop));
        }
        j += 1;
    }
    assert(lv.take(n as int) =~= lv);
    *lines = out;
}

/// The `[N line(s) truncated]` text.
pub open spec fn truncation_text(count: nat) -> Seq<char> {
    "["@ + crate::text::decimal(count) + " "@ + (if count == 1 {
        "line"@
    } else {
        "lines"@
    }) + " truncated]"@
}

/// The markup of a truncation notice in a format.
pub open spec fn truncation_markup(text: Seq<char>, format: Seq<char>) -> Seq<char> {
    if format == seq!['l', 'a', 't', 'e', 'x'] {
        "\\textit{"@ + text + "}"@
    } else if format == seq!['t', 'y', 'p', 's', 't'] {
        "_"@ + text + "_"@
    } else if format == seq!['m', 'a', 'r', 'k', 'd', 'o', 'w', 'n'] {
        "*"@ + text + "*"@
    } else {
        "<span class=\"term-truncated\">"@ + text + "</span>"@
    }
}

/// The notice that stands for `count` truncated lines.
pub fn format_truncation_message(count: usize, format: &str) -> (r: RenderedLine)
    ensures
        r.text@ == truncation_text(count as nat),
        r.html@ == truncation_markup(truncation_text(count as nat), format@),
{
    let mut text = String::new();
    text.append("[");
    crate::text::push_decimal(&mut text, count as u64);
    text.append(" ");
    if count == 1 {
        text.append("line");
    } else {
        text.append("lines");
    }
    text.append(" truncated]");
    let f = str_chars(format);
    let mut html = String::new();
    if crate::keymap::eq_chars(&f, &['l', 'a', 't', 'e', 'x']) {
        html.append("\\textit{");
        html.append(text.as_str());
        html.append("}");
    } else if crate::keymap::eq_chars(&f, &['t', 'y', 'p', 's', 't']) {
        html.append("_");
        html.append(text.as_str());
        html.append("_");
    } else if crate::keymap::eq_chars(&f, &['m', 'a', 'r', 'k', 'd', 'o', 'w', 'n']) {
        html.append("*");
        html.append(text.as_str());
        html.append("*");
    } else {
        html.append("<span class=\"term-truncated\">");
        html.append(text.as_str());
        html.append("</span>");
    }
    RenderedLine { html, text }
}

/// Length of the run of consecutive listed indices starting at `i`
/// (below `n`).
pub open spec fn run_len(drop: Seq<usize>, i: int, n: int) -> nat
    decreases n - i,
{
    if 0 <= i < n && drop.contains(i as usize) {
        1 + run_len(drop, i + 1, n)
    } else {
        0
    }
}

/// What line `j` of `n` becomes under truncation: itself when not listed;
/// a notice for the whole run when it starts a run of listed lines;
/// nothing inside a run.
pub open spec fn truncated_piece(
    ls: Seq<LineView>,
    drop: Seq<usize>,
    format: Seq<char>,
    j: int,
) -> Seq<LineView> {
    if drop.contains(j as usize) {
        if j > 0 && drop.contains((j - 1) as usize) {
            Seq::empty()
        } else {
            let t = truncation_text(run_len(drop, j, ls.len() as int));
            seq![(truncation_markup(t, format), t)]
        }
    } else {
        seq![ls[j]]
    }
}

/// The first `m` lines under truncation.
pub open spec fn truncated_upto(
    ls: Seq<LineView>,
    drop: Seq<usize>,
    format: Seq<char>,
    m: int,
) -> Seq<LineView>
    decreases m,
{
    if m <= 0 {
        Seq::empty()
    } else {
        truncated_upto(ls, drop, format, m - 1) + truncated_piece(ls, drop, format, m - 1)
    }
}

/// Replaces each run of consecutive selected lines by one notice giving
/// the number of lines left out. Expressions that are neither numbers nor
/// ranges are matched as regular expressions against the lines' text.
pub fn apply_truncate(lines: &mut Vec<RenderedLine>, specs: &[LineSpec], format: &str)
    requires
        old(lines).len() <= i32::MAX,
    ensures
        lines_view(final(lines)@) == truncated_upto(
            lines_view(old(lines)@),
            all_selected(
                specs@,
                Seq::new(
                    specs.len() as nat,
                    |k: int| spec_hits(specs@[k], line_texts(old(lines)@)),
                ),
                old(lines).len() as int,
            ),
            format@,
            old(lines).len() as int,
        ),
{
    let ghost lv = lines_view(lines@);
    let ghost drop = all_selected(
        specs@,
        Seq::new(specs.len() as nat, |k: int| spec_hits(specs@[k], line_texts(lines@))),
        lines.len() as int,
    );
    let to_truncate = resolve_line_specs(specs, lines);
    let n = lines.len();
    let mask = index_mask(&to_truncate, n);
    let mut out: Vec<RenderedLine> = Vec::new();
    let mut j: usize = 0;
    while j < n
        invariant
            j <= n == lines.len() == mask.len(),
            lv == lines_view(lines@),
            lv.len() == n,
            forall|m: int| 0 <= m < n ==> #[trigger] mask@[m] == drop.contains(m as usize),
            lines_view(out@) == truncated_upto(lv, drop, format@, j as int),
        decreases n - j,
    {
        let ghost before = out@;
        if mask[j] {
            if !(j > 0 && mask[j - 1]) {
                let mut k = j;
                while k < n && mask[k]
                    invariant
                        j <= k <= n == mask.len(),
                        forall|m: int| 0 <= m < n ==> #[trigger] mask@[m] == drop.contains(
                            m as usize,
                        ),
                        run_len(drop, j as int, n as int) == (k - j) + run_len(
                            drop,
                            k as int,
                            n as int,
                        ),
                    decreases n - k,
                {
                    k += 1;
                }
                assert(run_len(drop, k as int, n as int) == 0);
                out.push(format_truncation_message(k - j, format));
            }
        } else {
            out.push(copy_line(&lines[j]));
        }
        proof {
            assert(lines_view(out@) =~= truncated_upto(lv, drop, format@, j + 1));
        }
        j += 1;
    }
    *lines = out;
}

} // verus!

verus! {

/// The first index `j` in `from..len` that a pattern result marks.
pub open spec fn first_marked(h: Seq<bool>, len: int, from: int) -> Option<int>
    decreases len - from,
{
    if from < 0 || from >= len {
        None
    } else if from < h.len() && h[from] {
        Some(from)
    } else {
        first_marked(h, len, from + 1)
    }
}

/// The line a callout selector annotates: the line of a number, the first
/// line of a range, or the first line its pattern matches. (A callout
/// expression is read as a range or a pattern, never as a number.)
pub open spec fn callout_target(spec: LineSpec, hits: Option<Seq<bool>>, len: int) -> Option<int> {
    match spec {
        LineSpec::Index(i) => match spec_resolve_single_index(i, len) {
            Some(x) => Some(x as int),
            None => None,
        },
        LineSpec::Expr(s) => if spec_is_range_syntax(s@) {
            let r = spec_parse_range_spec(s@, len);
            if r.len() > 0 {
                Some(r[0] as int)
            } else {
                None
            }
        } else {
            match hits {
                Some(h) => first_marked(h, len, 0),
                None => None,
            }
        },
    }
}

/// The callout marker `<n>` appended to an annotated line.
pub open spec fn callout_mark(n: nat) -> Seq<char> {
    " <span class=\"term-callout\">&lt;"@ + crate::text::decimal(n) + "&gt;</span>"@
}

/// The lines after the callouts of `specs`, numbered from 1 in order, have
/// been appended to their target lines.
pub open spec fn with_callouts(
    ls: Seq<LineView>,
    specs: Seq<LineSpec>,
    hits: Seq<Option<Seq<bool>>>,
) -> Seq<LineView>
    decreases specs.len(),
{
    if specs.len() == 0 {
        ls
    } else {
        let prev = with_callouts(ls, specs.drop_last(), hits);
        match callout_target(specs.last(), hit_at(hits, specs.len() - 1), ls.len() as int) {
            Some(t) => if 0 <= t < prev.len() {
                prev.update(t, (prev[t].0 + callout_mark(specs.len()), prev[t].1))
            } else {
                prev
            },
            None => prev,
        }
    }
}

proof fn lemma_with_callouts_len(
    ls: Seq<LineView>,
    specs: Seq<LineSpec>,
    hits: Seq<Option<Seq<bool>>>,
)
    ensures
        with_callouts(ls, specs, hits).len() == ls.len(),
    decreases specs.len(),
{
    if specs.len() > 0 {
        lemma_with_callouts_len(ls, specs.drop_last(), hits);
    }
}

fn first_marked_index(h: &Vec<bool>, len: usize) -> (r: Option<usize>)
    ensures
        match first_marked(h@, len as int, 0) {
            Some(j) => r == Some(j as usize) && 0 <= j < len,
            None => r is None,
        },
{
    let mut j: usize = 0;
    while j < len
        invariant
            j <= len,
            first_marked(h@, len as int, j as int) == first_marked(h@, len as int, 0),
        decreases len - j,
    {
        if j < h.len() && h[j] {
            return Some(j);
        }
        j += 1;
    }
    None
}

fn callout_index(spec: &LineSpec, hits: &Option<Vec<bool>>, len: usize) -> (r: Option<usize>)
    requires
        len <= i32::MAX,
    ensures
        match callout_target(*spec, opt_view(*hits), len as int) {
            Some(t) => r == Some(t as usize) && 0 <= t < len,
            None => r is None,
        },
{
    match spec {
        LineSpec::Index(i) => resolve_single_index(*i, len),
        LineSpec::Expr(s) => {
            let v = str_chars(s.as_str());
            if is_range_syntax_chars(&v) {
                let indices = parse_range_spec_chars(&v, len);
                if indices.len() > 0 {
                    Some(indices[0])
                } else {
                    None
                }
            } else {
                match hits {
                    Some(h) => first_marked_index(h, len),
                    None => None,
                }
            }
        },
    }
}

/// Appends numbered callout markers (`<1>`, `<2>`, ...) to the lines the
/// selectors point at, given what each selector's pattern finds.
pub fn apply_callouts_with(
    lines: &mut Vec<RenderedLine>,
    specs: &[LineSpec],
    hits: &Vec<Option<Vec<bool>>>,
)
    requires
        old(lines).len() <= i32::MAX,
        specs.len() < u64::MAX,
    ensures
        lines_view(final(lines)@) == with_callouts(
            lines_view(old(lines)@),
            specs@,
            hits_view(hits@),
        ),
{
    let ghost lv = lines_view(lines@);
    let ghost hv = hits_view(hits@);
    let n = lines.len();
    let mut k: usize = 0;
    while k < specs.len()
        invariant
            k <= specs.len() < u64::MAX,
            n == lines.len() <= i32::MAX,
            lv.len() == n,
            hv == hits_view(hits@),
            lines_view(lines@) == with_callouts(lv, specs@.take(k as int), hv),
        decreases specs.len() - k,
    {
        let none: Option<Vec<bool>> = None;
        let h = if k < hits.len() { &hits[k] } else { &none };
        proof {
            assert(opt_view(*h) == hit_at(hv, k as int));
            assert(specs@.take(k + 1).drop_last() =~= specs@.take(k as int));
            lemma_with_callouts_len(lv, specs@.take(k as int), hv);
        }
        let target = callout_index(&specs[k], h, n);
        proof {
            let sk = specs@.take(k + 1);
            assert(sk.last() == specs@[k as int]);
            assert(sk.len() - 1 == k);
        }
        if let Some(t) = target {
            if t < n {
                let ghost before = lines_view(lines@);
                let ghost raw_before = lines@;
                let mut html = lines[t].html.clone();
                html.append(" <span class=\"term-callout\">&lt;");
                crate::text::push_decimal(&mut html, (k + 1) as u64);
                html.append("&gt;</span>");
                let text = lines[t].text.clone();
                let ghost new_view = (html@, text@);
                assert(new_view == (before[t as int].0 + callout_mark((k + 1) as nat), before[t as int].1));
                lines.set(t, RenderedLine { html, text });
                proof {
                    assert(lines@ == raw_before.update(t as int, lines@[t as int]));
                    assert(line_view(lines@[t as int]) == new_view);
                    assert forall|m: int| 0 <= m < n implies #[trigger] lines_view(lines@)[m] == before.update(
                        t as int,
                        new_view,
                    )[m] by {
                        if m != t {
                            assert(lines@[m] == raw_before[m]);
                        }
                    }
                    assert(lines_view(lines@) =~= before.update(
                        t as int,
                        (before[t as int].0 + callout_mark((k + 1) as nat), before[t as int].1),
                    ));
                }
            }
        }
        k += 1;
    }
    assert(specs@.take(specs.len() as int) =~= specs@);
}

/// Appends numbered callout markers to the lines the selectors point at.
/// Expressions that are not ranges are matched as regular expressions
/// against the lines' text.
pub fn apply_callouts(lines: &mut Vec<RenderedLine>, specs: &[LineSpec])
    requires
        old(lines).len() <= i32::MAX,
        specs.len() < u64::MAX,
    ensures
        lines_view(final(lines)@) == with_callouts(
            lines_view(old(lines)@),
            specs@,
            Seq::new(specs.len() as nat, |k: int| spec_hits(specs@[k], line_texts(old(lines)@))),
        ),
{
    let hits = match_patterns(specs, lines);
    assert(hits_view(hits@) =~= Seq::new(
        specs.len() as nat,
        |k: int| spec_hits(specs@[k], line_texts(lines@)),
    ));
    apply_callouts_with(lines, specs, &hits);
}

} // verus!

verus! {

/// `text` begins with `prefix`.
pub open spec fn has_prefix(text: Seq<char>, prefix: Seq<char>) -> bool {
    prefix.len() <= text.len() && text.take(prefix.len() as int) == prefix
}

/// The blank line inserted between commands.
pub open spec fn blank_line() -> LineView {
    (Seq::empty(), Seq::empty())
}

/// The first `m` lines with a blank line inserted before every line but
/// the first whose text begins with the prompt and a space.
pub open spec fn spaced_upto(ls: Seq<LineView>, prefix: Seq<char>, m: int) -> Seq<LineView>
    decreases m,
{
    if m <= 0 {
        Seq::empty()
    } else {
        spaced_upto(ls, prefix, m - 1) + if m - 1 > 0 && has_prefix(ls[m - 1].1, prefix) {
            seq![blank_line(), ls[m - 1]]
        } else {
            seq![ls[m - 1]]
        }
    }
}

fn has_prefix_chars(text: &[char], prefix: &[char]) -> (b: bool)
    ensures
        b == has_prefix(text@, prefix@),
{
    if prefix.len() > text.len() {
        return false;
    }
    let mut i: usize = 0;
    while i < prefix.len()
        invariant
            prefix.len() <= text.len(),
            i <= prefix.len(),
            forall|k: int| 0 <= k < i ==> text@[k] == prefix@[k],
        decreases prefix.len() - i,
    {
        if text[i] != prefix[i] {
            assert(text@.take(prefix.len() as int)[i as int] != prefix@[i as int]);
            return false;
        }
        i += 1;
    }
    assert(text@.take(prefix.len() as int) =~= prefix@);
    true
}

/// Inserts a blank line before each command after the first: before every
/// line, but the first, whose text begins with the prompt and a space.
pub fn apply_spacing(lines: &mut Vec<RenderedLine>, prompt: &str)
    ensures
        lines_view(final(lines)@) == spaced_upto(
            lines_view(old(lines)@),
            prompt@ + " "@,
            old(lines).len() as int,
        ),
{
    let ghost lv = lines_view(lines@);
    let mut prefix_s = String::new();
    prefix_s.append(prompt);
    prefix_s.append(" ");
    let prefix = str_chars(prefix_s.as_str());
    let n = lines.len();
    let mut out: Vec<RenderedLine> = Vec::new();
    let mut j: usize = 0;
    while j < n
        invariant
            j <= n == lines.len(),
            lv == lines_view(lines@),
            prefix@ == prompt@ + " "@,
            lines_view(out@) == spaced_upto(lv, prefix@, j as int),
        decreases n - j,
    {
        let text = str_chars(lines[j].text.as_str());
        if j > 0 && has_prefix_chars(&text, &prefix) {
            out.push(RenderedLine { html: String::new(), text: String::new() });
        }
        out.push(copy_line(&lines[j]));
        proof {
            assert(lines_view(out@) =~= spaced_upto(lv, prefix@, j + 1));
        }
        j += 1;
    }
    *lines = out;
}

/// What the basic source escaping makes of one character.
pub open spec fn basic_char_esc(c: char) -> Seq<char> {
    if c == '&' {
        "&amp;"@
    } else if c == '<' {
        "&lt;"@
    } else if c == '>' {
        "&gt;"@
    } else {
        seq![c]
    }
}

/// The basic escaping of a text.
pub open spec fn spec_basic_escape(s: Seq<char>) -> Seq<char> {
    crate::text::flat_map(s, |c: char| basic_char_esc(c))
}

/// Escapes `&`, `<` and `>` (quotes are left alone) for source listings.
pub fn html_escape_basic(s: &str) -> (r: String)
    ensures
        r@ == spec_basic_escape(s@),
{
    let v = str_chars(s);
    let mut out = String::new();
    let mut i: usize = 0;
    while i < v.len()
        invariant
            i <= v.len(),
            out@ == crate::text::flat_map(v@.take(i as int), |c: char| basic_char_esc(c)),
        decreases v.len() - i,
    {
        let c = v[i];
        proof {
            crate::text::lemma_flat_map_take(v@, |c: char| basic_char_esc(c), i as int);
        }
        if c == '&' {
            out.append("&amp;");
        } else if c == '<' {
            out.append("&lt;");
        } else if c == '>' {
            out.append("&gt;");
        } else {
            crate::text::push_char(&mut out, c);
        }
        i += 1;
    }
    proof {
        crate::text::lemma_take_full(v@);
    }
    out
}

/// ASCII lower-casing of a character (`char::to_ascii_lowercase`).
pub open spec fn ascii_lower(c: char) -> char {
    if 'A' <= c && c <= 'Z' {
        ((c as u32) + 32) as char
    } else {
        c
    }
}

fn to_ascii_lower(c: char) -> (r: char)
    ensures
        r == ascii_lower(c),
{
    if 'A' <= c && c <= 'Z' {
        ((c as u8) + 32) as char
    } else {
        c
    }
}

/// The keys typed with the left hand.
pub open spec fn left_keys() -> Seq<char> {
    seq!['q', 'w', 'e', 'r', 't', 'a', 's', 'd', 'f', 'g', 'z', 'x', 'c', 'v', 'b', '1', '2', '3', '4', '5', '`', '~', '!', '@', '#', '$', '%']
}

/// Keys typed with the left hand.
pub open spec fn left_hand(c: char) -> bool {
    left_keys().contains(c)
}

fn is_left_hand(c: char) -> (b: bool)
    ensures
        b == left_hand(c),
{
    let left = ['q', 'w', 'e', 'r', 't', 'a', 's', 'd', 'f', 'g', 'z', 'x', 'c', 'v', 'b', '1', '2', '3', '4', '5', '`', '~', '!', '@', '#', '$', '%'];
    let ghost ls = left_keys();
    assert(left@ =~= ls);
    let mut i: usize = 0;
    while i < 27
        invariant
            i <= 27,
            left@ == ls,
            ls == left_keys(),
            forall|k: int| 0 <= k < i ==> ls[k] != c,
        decreases 27 - i,
    {
        if left[i] == c {
            assert(ls[i as int] == c);
            return true;
        }
        i += 1;
    }
    false
}

/// Whether two keys are typed with the same hand (ASCII case ignored).
pub fn on_same_hand(a: char, b: char) -> (r: bool)
    ensures
        r == (left_hand(ascii_lower(a)) == left_hand(ascii_lower(b))),
{
    is_left_hand(to_ascii_lower(a)) == is_left_hand(to_ascii_lower(b))
}

/// How the pause before a keystroke compares with the base typing delay.
#[derive(Clone, Copy, Debug, PartialEq, Eq, Structural)]
pub enum KeyPace {
    /// The first key, or a space: the base delay.
    Base,
    /// A key after a space.
    AfterSpace,
    /// A key after `.`, `,`, `;` or `:`.
    AfterPunctuation,
    /// The same key again.
    Repeat,
    /// A key typed with the same hand as the one before.
    SameHand,
    /// A key typed with the other hand.
    OtherHand,
}

/// The pace of typing `curr` after `prev`.
pub open spec fn spec_key_pace(prev: Option<char>, curr: char) -> KeyPace {
    match prev {
        None => KeyPace::Base,
        Some(p) => if curr == ' ' {
            KeyPace::Base
        } else if p == ' ' {
            KeyPace::AfterSpace
        } else if p == '.' || p == ',' || p == ';' || p == ':' {
            KeyPace::AfterPunctuation
        } else if p == curr {
            KeyPace::Repeat
        } else if left_hand(ascii_lower(p)) == left_hand(ascii_lower(curr)) {
            KeyPace::SameHand
        } else {
            KeyPace::OtherHand
        },
    }
}

/// Classifies the pause before typing `curr` after `prev`.
pub fn key_pace(prev: Option<char>, curr: char) -> (r: KeyPace)
    ensures
        r == spec_key_pace(prev, curr),
{
    match prev {
        None => KeyPace::Base,
        Some(p) => {
            if curr == ' ' {
                return KeyPace::Base;
            }
            if p == ' ' {
                return KeyPace::AfterSpace;
            }
            if p == '.' || p == ',' || p == ';' || p == ':' {
                return KeyPace::AfterPunctuation;
            }
            let same_hand = on_same_hand(p, curr);
            if p == curr {
                return KeyPace::Repeat;
            }
            if same_hand {
                KeyPace::SameHand
            } else {
                KeyPace::OtherHand
            }
        },
    }
}

/// The keys next to a key on a QWERTY keyboard (empty for other keys).
pub open spec fn key_neighbors(k: char) -> Seq<char> {
    if k == 'a' {
        seq!['s', 'q', 'z', 'w']
    } else if k == 'b' {
        seq!['v', 'g', 'h', 'n']
    } else if k == 'c' {
        seq!['x', 'd', 'f', 'v']
    } else if k == 'd' {
        seq!['s', 'e', 'r', 'f', 'c', 'x']
    } else if k == 'e' {
        seq!['w', 'r', 'd', 's', '3', '4']
    } else if k == 'f' {
        seq!['d', 'r', 't', 'g', 'v', 'c']
    } else if k == 'g' {
        seq!['f', 't', 'y', 'h', 'b', 'v']
    } else if k == 'h' {
        seq!['g', 'y', 'u', 'j', 'n', 'b']
    } else if k == 'i' {
        seq!['u', 'o', 'k', 'j', '8', '9']
    } else if k == 'j' {
        seq!['h', 'u', 'i', 'k', 'm', 'n']
    } else if k == 'k' {
        seq!['j', 'i', 'o', 'l', ',', 'm']
    } else if k == 'l' {
        seq!['k', 'o', 'p', ';', '.', ',']
    } else if k == 'm' {
        seq!['n', 'j', 'k', ',']
    } else if k == 'n' {
        seq!['b', 'h', 'j', 'm']
    } else if k == 'o' {
        seq!['i', 'p', 'l', 'k', '9', '0']
    } else if k == 'p' {
        seq!['o', '[', ';', 'l', '0', '-']
    } else if k == 'q' {
        seq!['w', 'a', '1', '2']
    } else if k == 'r' {
        seq!['e', 't', 'f', 'd', '4', '5']
    } else if k == 's' {
        seq!['a', 'w', 'e', 'd', 'x', 'z']
    } else if k == 't' {
        seq!['r', 'y', 'g', 'f', '5', '6']
    } else if k == 'u' {
        seq!['y', 'i', 'j', 'h', '7', '8']
    } else if k == 'v' {
        seq!['c', 'f', 'g', 'b']
    } else if k == 'w' {
        seq!['q', 'e', 's', 'a', '2', '3']
    } else if k == 'x' {
        seq!['z', 's', 'd', 'c']
    } else if k == 'y' {
        seq!['t', 'u', 'h', 'g', '6', '7']
    } else if k == 'z' {
        seq!['a', 's', 'x']
    } else if k == '1' {
        seq!['2', 'q']
    } else if k == '2' {
        seq!['1', '3', 'q', 'w']
    } else if k == '3' {
        seq!['2', '4', 'w', 'e']
    } else if k == '4' {
        seq!['3', '5', 'e', 'r']
    } else if k == '5' {
        seq!['4', '6', 'r', 't']
    } else if k == '6' {
        seq!['5', '7', 't', 'y']
    } else if k == '7' {
        seq!['6', '8', 'y', 'u']
    } else if k == '8' {
        seq!['7', '9', 'u', 'i']
    } else if k == '9' {
        seq!['8', '0', 'i', 'o']
    } else if k == '0' {
        seq!['9', '-', 'o', 'p']
    } else if k == ' ' {
        seq![' ']
    } else {
        Seq::empty()
    }
}

fn neighbors_of(k: char) -> (r: Vec<char>)
    ensures
        r@ == key_neighbors(k),
{
    if k == 'a' {
        let v: Vec<char> = vec!['s', 'q', 'z', 'w'];
        assert(v@ =~= seq!['s', 'q', 'z', 'w']);
        v
    } else if k == 'b' {
        let v: Vec<char> = vec!['v', 'g', 'h', 'n'];
        assert(v@ =~= seq!['v', 'g', 'h', 'n']);
        v
    } else if k == 'c' {
        let v: Vec<char> = vec!['x', 'd', 'f', 'v'];
        assert(v@ =~= seq!['x', 'd', 'f', 'v']);
        v
    } else if k == 'd' {
        let v: Vec<char> = vec!['s', 'e', 'r', 'f', 'c', 'x'];
        assert(v@ =~= seq!['s', 'e', 'r', 'f', 'c', 'x']);
        v
    } else if k == 'e' {
        let v: Vec<char> = vec!['w', 'r', 'd', 's', '3', '4'];
        assert(v@ =~= seq!['w', 'r', 'd', 's', '3', '4']);
        v
    } else if k == 'f' {
        let v: Vec<char> = vec!['d', 'r', 't', 'g', 'v', 'c'];
        assert(v@ =~= seq!['d', 'r', 't', 'g', 'v', 'c']);
        v
    } else if k == 'g' {
        let v: Vec<char> = vec!['f', 't', 'y', 'h', 'b', 'v'];
        assert(v@ =~= seq!['f', 't', 'y', 'h', 'b', 'v']);
        v
    } else if k == 'h' {
        let v: Vec<char> = vec!['g', 'y', 'u', 'j', 'n', 'b'];
        assert(v@ =~= seq!['g', 'y', 'u', 'j', 'n', 'b']);
        v
    } else if k == 'i' {
        let v: Vec<char> = vec!['u', 'o', 'k', 'j', '8', '9'];
        assert(v@ =~= seq!['u', 'o', 'k', 'j', '8', '9']);
        v
    } else if k == 'j' {
        let v: Vec<char> = vec!['h', 'u', 'i', 'k', 'm', 'n'];
        assert(v@ =~= seq!['h', 'u', 'i', 'k', 'm', 'n']);
        v
    } else if k == 'k' {
        let v: Vec<char> = vec!['j', 'i', 'o', 'l', ',', 'm'];
        assert(v@ =~= seq!['j', 'i', 'o', 'l', ',', 'm']);
        v
    } else if k == 'l' {
        let v: Vec<char> = vec!['k', 'o', 'p', ';', '.', ','];
        assert(v@ =~= seq!['k', 'o', 'p', ';', '.', ',']);
        v
    } else if k == 'm' {
        let v: Vec<char> = vec!['n', 'j', 'k', ','];
        assert(v@ =~= seq!['n', 'j', 'k', ',']);
        v
    } else if k == 'n' {
        let v: Vec<char> = vec!['b', 'h', 'j', 'm'];
        assert(v@ =~= seq!['b', 'h', 'j', 'm']);
        v
    } else if k == 'o' {
        let v: Vec<char> = vec!['i', 'p', 'l', 'k', '9', '0'];
        assert(v@ =~= seq!['i', 'p', 'l', 'k', '9', '0']);
        v
    } else if k == 'p' {
        let v: Vec<char> = vec!['o', '[', ';', 'l', '0', '-'];
        assert(v@ =~= seq!['o', '[', ';', 'l', '0', '-']);
        v
    } else if k == 'q' {
        let v: Vec<char> = vec!['w', 'a', '1', '2'];
        assert(v@ =~= seq!['w', 'a', '1', '2']);
        v
    } else if k == 'r' {
        let v: Vec<char> = vec!['e', 't', 'f', 'd', '4', '5'];
        assert(v@ =~= seq!['e', 't', 'f', 'd', '4', '5']);
        v
    } else if k == 's' {
        let v: Vec<char> = vec!['a', 'w', 'e', 'd', 'x', 'z'];
        assert(v@ =~= seq!['a', 'w', 'e', 'd', 'x', 'z']);
        v
    } else if k == 't' {
        let v: Vec<char> = vec!['r', 'y', 'g', 'f', '5', '6'];
        assert(v@ =~= seq!['r', 'y', 'g', 'f', '5', '6']);
        v
    } else if k == 'u' {
        let v: Vec<char> = vec!['y', 'i', 'j', 'h', '7', '8'];
        assert(v@ =~= seq!['y', 'i', 'j', 'h', '7', '8']);
        v
    } else if k == 'v' {
        let v: Vec<char> = vec!['c', 'f', 'g', 'b'];
        assert(v@ =~= seq!['c', 'f', 'g', 'b']);
        v
    } else if k == 'w' {
        let v: Vec<char> = vec!['q', 'e', 's', 'a', '2', '3'];
        assert(v@ =~= seq!['q', 'e', 's', 'a', '2', '3']);
        v
    } else if k == 'x' {
        let v: Vec<char> = vec!['z', 's', 'd', 'c'];
        assert(v@ =~= seq!['z', 's', 'd', 'c']);
        v
    } else if k == 'y' {
        let v: Vec<char> = vec!['t', 'u', 'h', 'g', '6', '7'];
        assert(v@ =~= seq!['t', 'u', 'h', 'g', '6', '7']);
        v
    } else if k == 'z' {
        let v: Vec<char> = vec!['a', 's', 'x'];
        assert(v@ =~= seq!['a', 's', 'x']);
        v
    } else if k == '1' {
        let v: Vec<char> = vec!['2', 'q'];
        assert(v@ =~= seq!['2', 'q']);
        v
    } else if k == '2' {
        let v: Vec<char> = vec!['1', '3', 'q', 'w'];
        assert(v@ =~= seq!['1', '3', 'q', 'w']);
        v
    } else if k == '3' {
        let v: Vec<char> = vec!['2', '4', 'w', 'e'];
        assert(v@ =~= seq!['2', '4', 'w', 'e']);
        v
    } else if k == '4' {
        let v: Vec<char> = vec!['3', '5', 'e', 'r'];
        assert(v@ =~= seq!['3', '5', 'e', 'r']);
        v
    } else if k == '5' {
        let v: Vec<char> = vec!['4', '6', 'r', 't'];
        assert(v@ =~= seq!['4', '6', 'r', 't']);
        v
    } else if k == '6' {
        let v: Vec<char> = vec!['5', '7', 't', 'y'];
        assert(v@ =~= seq!['5', '7', 't', 'y']);
        v
    } else if k == '7' {
        let v: Vec<char> = vec!['6', '8', 'y', 'u'];
        assert(v@ =~= seq!['6', '8', 'y', 'u']);
        v
    } else if k == '8' {
        let v: Vec<char> = vec!['7', '9', 'u', 'i'];
        assert(v@ =~= seq!['7', '9', 'u', 'i']);
        v
    } else if k == '9' {
        let v: Vec<char> = vec!['8', '0', 'i', 'o'];
        assert(v@ =~= seq!['8', '0', 'i', 'o']);
        v
    } else if k == '0' {
        let v: Vec<char> = vec!['9', '-', 'o', 'p'];
        assert(v@ =~= seq!['9', '-', 'o', 'p']);
        v
    } else if k == ' ' {
        let v: Vec<char> = vec![' '];
        assert(v@ =~= seq![' ']);
        v
    } else {
        Vec::new()
    }
}

/// ASCII upper-casing of a character (`char::to_ascii_uppercase`).
pub open spec fn ascii_upper(c: char) -> char {
    if 'a' <= c && c <= 'z' {
        ((c as u32) - 32) as char
    } else {
        c
    }
}

/// The typo for `ch` when neighbour number `pick` is hit: that neighbour,
/// upper-cased for an upper-case letter; `ch` itself for a key without
/// neighbours.
pub open spec fn spec_adjacent_key(ch: char, pick: int) -> char {
    let adj = key_neighbors(ascii_lower(ch));
    if adj.len() == 0 {
        ch
    } else if 'A' <= ch && ch <= 'Z' {
        ascii_upper(adj[pick])
    } else {
        adj[pick]
    }
}

/// The typo for `ch` when neighbour number `pick` is hit.
pub fn adjacent_key_pick(ch: char, pick: usize) -> (r: char)
    requires
        pick < key_neighbors(ascii_lower(ch)).len() || key_neighbors(ascii_lower(ch)).len() == 0,
    ensures
        r == spec_adjacent_key(ch, pick as int),
{
    let lower = to_ascii_lower(ch);
    let adj = neighbors_of(lower);
    if adj.len() == 0 {
        return ch;
    }
    let picked = adj[pick];
    if 'A' <= ch && ch <= 'Z' {
        if 'a' <= picked && picked <= 'z' {
            ((picked as u8) - 32) as char
        } else {
            picked
        }
    } else {
        picked
    }
}

/// A random generator (`rand::rngs::StdRng`).
#[verifier::external_type_specification]
#[verifier::external_body]
pub struct ExStdRng(rand::rngs::StdRng);

/// `rand::Rng::gen_range(0..len)`: a random index below `len`.
#[verifier::external_body]
fn random_index(rng: &mut rand::rngs::StdRng, len: usize) -> (r: usize)
    requires
        len > 0,
    ensures
        r < len,
{
    rand::Rng::gen_range(rng, 0..len)
}

/// A typo for `ch`: a random QWERTY neighbour of the key (upper-cased for
/// an upper-case letter), or `ch` for a key without neighbours.
pub fn adjacent_key(ch: char, rng: &mut rand::rngs::StdRng) -> (r: char)
    ensures
        exists|pick: int|
            (0 <= pick < key_neighbors(ascii_lower(ch)).len() || key_neighbors(
                ascii_lower(ch),
            ).len() == 0) && r == spec_adjacent_key(ch, pick),
{
    let n = neighbors_of(to_ascii_lower(ch)).len();
    let pick = if n == 0 { 0 } else { random_index(rng, n) };
    let r = adjacent_key_pick(ch, pick);
    assert(r == spec_adjacent_key(ch, pick as int));
    r
}

/// Removing no lines keeps every line, in order.
pub proof fn law_remove_nothing(ls: Seq<LineView>)
    ensures
        kept(ls, Seq::empty()) == ls,
    decreases ls.len(),
{
    if ls.len() > 0 {
        law_remove_nothing(ls.drop_last());
        assert(ls.drop_last().push(ls.last()) =~= ls);
        assert(kept(ls, Seq::empty()) =~= ls);
    }
}

/// A range selects consecutive line positions, all inside the lines.
pub proof fn law_range_is_consecutive(s: Seq<char>, len: int)
    requires
        0 <= len <= usize::MAX,
    ensures
        forall|k: int|
            0 <= k < spec_parse_range_spec(s, len).len() ==> (#[trigger] spec_parse_range_spec(
                s,
                len,
            )[k] as int) < len,
        forall|k: int|
            0 < k < spec_parse_range_spec(s, len).len() ==> #[trigger] spec_parse_range_spec(
                s,
                len,
            )[k] as int == spec_parse_range_spec(s, len)[k - 1] + 1,
{
    if let Some((a, b)) = range_bounds(s, len) {
        assert(a >= 0);
    }
}

/// Escaped source holds no `<` or `>`: a listing cannot open or close a
/// tag.
pub proof fn law_basic_escape_inert(s: Seq<char>)
    ensures
        forall|i: int|
            0 <= i < spec_basic_escape(s).len()
                ==> #[trigger] spec_basic_escape(s)[i] != '<'
                && spec_basic_escape(s)[i] != '>',
    decreases s.len(),
{
    if s.len() > 0 {
        law_basic_escape_inert(s.drop_last());
        reveal_strlit("&amp;");
        reveal_strlit("&lt;");
        reveal_strlit("&gt;");
        let prev = spec_basic_escape(s.drop_last());
        let last = basic_char_esc(s.last());
        assert(spec_basic_escape(s) == prev + last);
        assert forall|i: int| 0 <= i < (prev + last).len() implies (prev + last)[i] != '<' && (prev
            + last)[i] != '>' by {
            if i < prev.len() {
                assert((prev + last)[i] == prev[i]);
            } else {
                assert((prev + last)[i] == last[i - prev.len()]);
            }
        }
    }
}

/// A callout given as a range annotates the first line of the range: the
/// line its start number resolves to, which lies at or before every line
/// the range selects, whatever the lines' pattern results.
pub proof fn law_range_callout_is_first_line(
    spec: LineSpec,
    hits: Option<Seq<bool>>,
    len: int,
)
    requires
        0 <= len <= usize::MAX,
        spec matches LineSpec::Expr(s) && spec_is_range_syntax(s@) && spec_parse_range_spec(
            s@,
            len,
        ).len() > 0,
    ensures
        ({
            let s = spec->Expr_0;
            let r = spec_parse_range_spec(s@, len);
            &&& callout_target(spec, hits, len) == Some((range_bounds(s@, len)->0).0)
            &&& forall|k: int| 0 <= k < r.len() ==> callout_target(spec, hits, len)->0 <= #[trigger] r[k]
        }),
{
    let s = spec->Expr_0;
    law_range_is_consecutive(s@, len);
    let r = spec_parse_range_spec(s@, len);
    let (a, b) = range_bounds(s@, len)->0;
    assert(a >= 0);
    assert(r[0] as int == a);
    assert forall|k: int| 0 <= k < r.len() implies r[0] <= #[trigger] r[k] by {
        assert(r[k] as int == r[0] + k);
    }
}

} // verus!
