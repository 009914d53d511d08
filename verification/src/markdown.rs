//! Markdown rendering: fenced code blocks of the lines' plain text.
use vstd::prelude::*;
use crate::renderer::{join_lines, text_views, RenderedLine};
use crate::text::{join, push_char, str_chars};

verus! {

/// Length of the run of backticks that ends `s`.
pub open spec fn trailing_backticks(s: Seq<char>) -> nat
    decreases s.len(),
{
    if s.len() > 0 && s.last() == '`' {
        1 + trailing_backticks(s.drop_last())
    } else {
        0
    }
}

/// Length of the longest run of consecutive backticks in `s`.
pub open spec fn max_backtick_run(s: Seq<char>) -> nat
    decreases s.len(),
{
    if s.len() == 0 {
        0
    } else {
        let prev = max_backtick_run(s.drop_last());
        let here = trailing_backticks(s);
        if here > prev {
            here
        } else {
            prev
        }
    }
}

/// Length of the fence for `content`: three backticks, or one more than
/// the longest backtick run inside.
pub open spec fn fence_len(content: Seq<char>) -> nat {
    if max_backtick_run(content) < 3 {
        3
    } else {
        max_backtick_run(content) + 1
    }
}

/// `n` backticks.
pub open spec fn backticks(n: nat) -> Seq<char> {
    Seq::new(n, |i: int| '`')
}

/// The fence that no backtick run in `content` can close.
pub fn fence_for_content(content: &str) -> (r: String)
    ensures
        r@ == backticks(fence_len(content@)),
{
    let v = str_chars(content);
    let mut max_run: usize = 0;
    let mut current_run: usize = 0;
    let mut i: usize = 0;
    while i < v.len()
        invariant
            i <= v.len(),
            current_run == trailing_backticks(v@.take(i as int)),
            max_run == max_backtick_run(v@.take(i as int)),
            max_run <= i,
            current_run <= i,
        decreases v.len() - i,
    {
        assert(v@.take(i + 1).drop_last() =~= v@.take(i as int));
        if v[i] == '`' {
            current_run += 1;
            if current_run > max_run {
                max_run = current_run;
            }
        } else {
            current_run = 0;
        }
        i += 1;
    }
    assert(v@.take(v.len() as int) =~= v@);
    let base: usize = if max_run < 3 { 3 } else { max_run };
    let mut r = String::new();
    let mut k: usize = 0;
    while k < base
        invariant
            k <= base,
            r@ =~= backticks(k as nat),
        decreases base - k,
    {
        push_char(&mut r, '`');
        k += 1;
    }
    if max_run >= 3 {
        push_char(&mut r, '`');
        assert(r@ =~= backticks((base + 1) as nat));
    }
    r
}

/// A fenced block of the lines' text with an info string.
pub open spec fn spec_fenced(lines: Seq<RenderedLine>, info: Seq<char>) -> Seq<char> {
    if lines.len() == 0 {
        Seq::empty()
    } else {
        let inner = join(text_views(lines), "\n"@);
        let fence = backticks(fence_len(inner));
        fence + info + "\n"@ + inner + "\n"@ + fence + "\n"@
    }
}

fn fenced(lines: &[RenderedLine], info: &str) -> (r: String)
    ensures
        r@ == spec_fenced(lines@, info@),
{
    if lines.len() == 0 {
        return String::new();
    }
    let inner = join_lines(lines, true, "\n");
    let fence = fence_for_content(inner.as_str());
    let mut r = String::new();
    r.append(fence.as_str());
    r.append(info);
    r.append("\n");
    r.append(inner.as_str());
    r.append("\n");
    r.append(fence.as_str());
    r.append("\n");
    r
}

/// The lines' text as a `console` code block.
pub fn render_lines_to_markdown(lines: &[RenderedLine]) -> (r: String)
    ensures
        r@ == spec_fenced(lines@, "console"@),
{
    fenced(lines, "console")
}

/// A captured screen's text as a `text` code block.
pub fn render_fullscreen_to_markdown(lines: &[RenderedLine]) -> (r: String)
    ensures
        r@ == spec_fenced(lines@, "text"@),
{
    fenced(lines, "text")
}


proof fn lemma_max_run_prefix(s: Seq<char>, j: int)
    requires
        0 <= j <= s.len(),
    ensures
        max_backtick_run(s.take(j)) <= max_backtick_run(s),
    decreases s.len() - j,
{
    if j < s.len() {
        lemma_max_run_prefix(s, j + 1);
        assert(s.take(j + 1).drop_last() =~= s.take(j));
    } else {
        assert(s.take(j) =~= s);
    }
}

proof fn lemma_trailing_window(s: Seq<char>, i: int, j: int)
    requires
        0 <= i <= j <= s.len(),
        forall|k: int| i <= k < j ==> s[k] == '`',
    ensures
        trailing_backticks(s.take(j)) >= j - i,
    decreases j - i,
{
    if i < j {
        lemma_trailing_window(s, i, j - 1);
        assert(s.take(j).drop_last() =~= s.take(j - 1));
        assert(s.take(j).last() == s[j - 1]);
    }
}

/// The fence is at least three backticks and longer than any run of
/// backticks inside the content, so the content cannot close the block.
pub proof fn law_fence_outlasts_backtick_runs(content: Seq<char>, i: int, j: int)
    requires
        0 <= i <= j <= content.len(),
        forall|k: int| i <= k < j ==> content[k] == '`',
    ensures
        fence_len(content) >= 3,
        j - i < fence_len(content),
{
    lemma_trailing_window(content, i, j);
    lemma_max_run_prefix(content, j);
    let t = content.take(j);
    if t.len() > 0 {
        assert(trailing_backticks(t) <= max_backtick_run(t));
    }
}

} // verus!
