//! What a session reads off the terminal screen: the replies owed to the
//! terminal queries a program prints, whether the shell shows a prompt,
//! which lines a cell produced, and which trailing lines are only prompts.
use vstd::prelude::*;
use vstd::string::StringSliceAdditionalSpecFns;
use vstd::utf8::{decode_utf8, encode_utf8, is_char_boundary};
use crate::keymap::{ascii_bytes, push_decimal_bytes};
use crate::pattern::{regex_find, regex_find_end, regex_is_match, regex_match, regex_valid};
use crate::renderer::{spec_wrap_prompt, RenderedLine};
use crate::session::{lines_view, LineView};
use crate::text::{decimal, strings_view};

verus! {

/// `p` occurs in `b` at position `i`.
pub open spec fn bytes_at(b: Seq<u8>, i: int, p: Seq<u8>) -> bool {
    0 <= i && i + p.len() <= b.len() && b.subrange(i, i + p.len()) == p
}

/// Device Status Report query (`ESC [ 6 n`).
pub open spec fn status_query() -> Seq<u8> {
    seq![0x1bu8, 0x5b, 0x36, 0x6e]
}

/// Device Attributes query (`ESC [ c`).
pub open spec fn attributes_query() -> Seq<u8> {
    seq![0x1bu8, 0x5b, 0x63]
}

/// Device Attributes query with its parameter (`ESC [ 0 c`).
pub open spec fn attributes_query0() -> Seq<u8> {
    seq![0x1bu8, 0x5b, 0x30, 0x63]
}

/// Background color query (`OSC 11 ; ? BEL`).
pub open spec fn background_query() -> Seq<u8> {
    seq![0x1bu8, 0x5d, 0x31, 0x31, 0x3b, 0x3f, 0x07]
}

/// Foreground color query (`OSC 10 ; ? BEL`).
pub open spec fn foreground_query() -> Seq<u8> {
    seq![0x1bu8, 0x5d, 0x31, 0x30, 0x3b, 0x3f, 0x07]
}

/// The cursor position report for a 0-based cursor: `ESC [ row ; col R`,
/// 1-based.
pub open spec fn cursor_report(row: nat, col: nat) -> Seq<u8> {
    seq![0x1bu8, 0x5b] + ascii_bytes(decimal(row + 1)) + seq![0x3bu8] + ascii_bytes(
        decimal(col + 1),
    ) + seq![0x52u8]
}

/// The device attributes of a VT220 (`ESC [ ? 62 ; 22 c`).
pub open spec fn attributes_reply() -> Seq<u8> {
    seq![0x1bu8, 0x5b, 0x3f, 0x36, 0x32, 0x3b, 0x32, 0x32, 0x63]
}

/// A black background (`OSC 11 ; rgb:0000/0000/0000 ST`).
pub open spec fn background_reply() -> Seq<u8> {
    seq![
        0x1bu8, 0x5d, 0x31, 0x31, 0x3b, 0x72, 0x67, 0x62, 0x3a, 0x30, 0x30, 0x30, 0x30, 0x2f,
        0x30, 0x30, 0x30, 0x30, 0x2f, 0x30, 0x30, 0x30, 0x30, 0x1b, 0x5c,
    ]
}

/// A white foreground (`OSC 10 ; rgb:ffff/ffff/ffff ST`).
pub open spec fn foreground_reply() -> Seq<u8> {
    seq![
        0x1bu8, 0x5d, 0x31, 0x30, 0x3b, 0x72, 0x67, 0x62, 0x3a, 0x66, 0x66, 0x66, 0x66, 0x2f,
        0x66, 0x66, 0x66, 0x66, 0x2f, 0x66, 0x66, 0x66, 0x66, 0x1b, 0x5c,
    ]
}

/// The replies owed to the queries in `b` from position `i` on, scanning
/// left to right; a query is skipped over once answered (the color
/// queries by six bytes, leaving their final BEL to be scanned).
pub open spec fn replies_from(b: Seq<u8>, i: int, row: nat, col: nat) -> Seq<u8>
    decreases b.len() - i,
{
    if i < 0 || i >= b.len() {
        Seq::empty()
    } else if bytes_at(b, i, status_query()) {
        cursor_report(row, col) + replies_from(b, i + 4, row, col)
    } else if bytes_at(b, i, attributes_query()) {
        attributes_reply() + replies_from(b, i + 3, row, col)
    } else if bytes_at(b, i, attributes_query0()) {
        attributes_reply() + replies_from(b, i + 4, row, col)
    } else if bytes_at(b, i, background_query()) {
        background_reply() + replies_from(b, i + 6, row, col)
    } else if bytes_at(b, i, foreground_query()) {
        foreground_reply() + replies_from(b, i + 6, row, col)
    } else {
        replies_from(b, i + 1, row, col)
    }
}

fn match_at(b: &[u8], i: usize, p: &[u8]) -> (r: bool)
    requires
        i < b.len(),
    ensures
        r == bytes_at(b@, i as int, p@),
{
    if p.len() > b.len() - i {
        return false;
    }
    let mut j: usize = 0;
    while j < p.len()
        invariant
            i < b.len(),
            p.len() <= b.len() - i,
            j <= p.len(),
            forall|k: int| 0 <= k < j ==> b@[i + k] == p@[k],
        decreases p.len() - j,
    {
        if b[i + j] != p[j] {
            assert(b@.subrange(i as int, i + p.len())[j as int] != p@[j as int]);
            return false;
        }
        j += 1;
    }
    assert(b@.subrange(i as int, i + p.len()) =~= p@);
    true
}

fn append_bytes(out: &mut Vec<u8>, p: &[u8])
    ensures
        final(out)@ == old(out)@ + p@,
{
    let ghost before = out@;
    let mut j: usize = 0;
    while j < p.len()
        invariant
            j <= p.len(),
            out@ == before + p@.take(j as int),
        decreases p.len() - j,
    {
        out.push(p[j]);
        assert(p@.take(j + 1) =~= p@.take(j as int).push(p@[j as int]));
        j += 1;
    }
    assert(p@.take(p.len() as int) =~= p@);
}

/// The bytes to write back for the terminal queries in output `b`, with the
/// cursor (0-based) at `row`, `col`: the cursor position, VT220 device
/// attributes, a black background and a white foreground, in the order the
/// queries come.
pub fn terminal_replies(b: &[u8], row: usize, col: usize) -> (r: Vec<u8>)
    requires
        row < u64::MAX,
        col < u64::MAX,
    ensures
        r@ == replies_from(b@, 0, row as nat, col as nat),
{
    let ghost total = replies_from(b@, 0, row as nat, col as nat);
    let mut out: Vec<u8> = Vec::new();
    let mut i: usize = 0;
    let status: [u8; 4] = [0x1b, 0x5b, 0x36, 0x6e];
    let attrs: [u8; 3] = [0x1b, 0x5b, 0x63];
    let attrs0: [u8; 4] = [0x1b, 0x5b, 0x30, 0x63];
    let bg_q: [u8; 7] = [0x1b, 0x5d, 0x31, 0x31, 0x3b, 0x3f, 0x07];
    let fg_q: [u8; 7] = [0x1b, 0x5d, 0x31, 0x30, 0x3b, 0x3f, 0x07];
    let attrs_r: [u8; 9] = [0x1b, 0x5b, 0x3f, 0x36, 0x32, 0x3b, 0x32, 0x32, 0x63];
    let bg_r: [u8; 25] = [
        0x1b, 0x5d, 0x31, 0x31, 0x3b, 0x72, 0x67, 0x62, 0x3a, 0x30, 0x30, 0x30, 0x30, 0x2f,
        0x30, 0x30, 0x30, 0x30, 0x2f, 0x30, 0x30, 0x30, 0x30, 0x1b, 0x5c,
    ];
    let fg_r: [u8; 25] = [
        0x1b, 0x5d, 0x31, 0x30, 0x3b, 0x72, 0x67, 0x62, 0x3a, 0x66, 0x66, 0x66, 0x66, 0x2f,
        0x66, 0x66, 0x66, 0x66, 0x2f, 0x66, 0x66, 0x66, 0x66, 0x1b, 0x5c,
    ];
    assert(status@ =~= status_query());
    assert(attrs@ =~= attributes_query());
    assert(attrs0@ =~= attributes_query0());
    assert(bg_q@ =~= background_query());
    assert(fg_q@ =~= foreground_query());
    assert(attrs_r@ =~= attributes_reply());
    assert(bg_r@ =~= background_reply());
    assert(fg_r@ =~= foreground_reply());
    while i < b.len()
        invariant
            row < u64::MAX,
            col < u64::MAX,
            total == replies_from(b@, 0, row as nat, col as nat),
            out@ + replies_from(b@, i as int, row as nat, col as nat) == total,
            status@ == status_query(),
            attrs@ == attributes_query(),
            attrs0@ == attributes_query0(),
            bg_q@ == background_query(),
            fg_q@ == foreground_query(),
            attrs_r@ == attributes_reply(),
            bg_r@ == background_reply(),
            fg_r@ == foreground_reply(),
        decreases b.len() - i,
    {
        let ghost before = out@;
        if match_at(b, i, &status) {
            out.push(0x1b);
            out.push(0x5b);
            push_decimal_bytes(&mut out, row as u64 + 1);
            out.push(0x3b);
            push_decimal_bytes(&mut out, col as u64 + 1);
            out.push(0x52);
            assert(out@ =~= before + cursor_report(row as nat, col as nat));
            i += 4;
        } else if match_at(b, i, &attrs) {
            append_bytes(&mut out, &attrs_r);
            i += 3;
        } else if match_at(b, i, &attrs0) {
            append_bytes(&mut out, &attrs_r);
            i += 4;
        } else if match_at(b, i, &bg_q) {
            append_bytes(&mut out, &bg_r);
            i += 6;
        } else if match_at(b, i, &fg_q) {
            append_bytes(&mut out, &fg_r);
            i += 6;
        } else {
            i += 1;
        }
    }
    assert(out@ =~= total);
    out
}

/// The last of the first `n` lines that is not empty.
pub open spec fn last_nonempty_below(texts: Seq<Seq<char>>, n: int) -> Option<int>
    decreases n,
{
    if n <= 0 {
        None
    } else if texts[n - 1].len() > 0 {
        Some(n - 1)
    } else {
        last_nonempty_below(texts, n - 1)
    }
}

/// The position of the last line that is not empty.
pub fn last_nonempty(texts: &[String]) -> (r: Option<usize>)
    ensures
        match r {
            Some(i) => i < texts.len() && last_nonempty_below(
                strings_view(texts@),
                texts.len() as int,
            ) == Some(i as int),
            None => last_nonempty_below(strings_view(texts@), texts.len() as int) is None,
        },
{
    let ghost tv = strings_view(texts@);
    let mut n: usize = texts.len();
    while n > 0
        invariant
            n <= texts.len(),
            tv == strings_view(texts@),
            last_nonempty_below(tv, texts.len() as int) == last_nonempty_below(tv, n as int),
        decreases n,
    {
        if !texts[n - 1].as_str().is_empty() {
            assert(tv[n - 1] == texts@[n - 1]@);
            return Some(n - 1);
        }
        assert(tv[n - 1] == texts@[n - 1]@);
        n -= 1;
    }
    None
}

/// The pattern compiles and matches the text.
pub open spec fn pattern_matches(p: Seq<char>, text: Seq<char>) -> bool {
    regex_valid(p) && regex_match(p, text)
}

fn matches_exec(p: &str, text: &str) -> (b: bool)
    ensures
        b == pattern_matches(p@, text@),
{
    match regex_is_match(p, text) {
        Some(m) => m,
        None => false,
    }
}

/// The shell shows its primary prompt: the last line that is not empty
/// matches the prompt pattern.
pub open spec fn spec_at_primary_prompt(texts: Seq<Seq<char>>, prompt: Seq<char>) -> bool {
    match last_nonempty_below(texts, texts.len() as int) {
        Some(i) => pattern_matches(prompt, texts[i]),
        None => false,
    }
}

/// Whether the screen, given as its lines' text, ends at the primary prompt.
pub fn at_primary_prompt(texts: &[String], prompt: &str) -> (b: bool)
    ensures
        b == spec_at_primary_prompt(strings_view(texts@), prompt@),
{
    match last_nonempty(texts) {
        Some(i) => {
            assert(strings_view(texts@)[i as int] == texts@[i as int]@);
            matches_exec(prompt, texts[i].as_str())
        },
        None => false,
    }
}

/// The shell waits for input: the cursor's line (past its first column)
/// shows the continuation prompt, or the last line that is not empty shows
/// either prompt.
pub open spec fn spec_at_prompt(
    texts: Seq<Seq<char>>,
    cursor_row: int,
    cursor_col: int,
    prompt: Seq<char>,
    ps2: Option<Seq<char>>,
) -> bool {
    ||| (ps2 is Some && cursor_col > 0 && 0 <= cursor_row < texts.len() && pattern_matches(
        ps2->0,
        texts[cursor_row],
    ))
    ||| match last_nonempty_below(texts, texts.len() as int) {
        Some(i) => pattern_matches(prompt, texts[i]) || (ps2 is Some && pattern_matches(
            ps2->0,
            texts[i],
        )),
        None => false,
    }
}

/// Whether the screen shows a prompt the shell waits at.
pub fn at_prompt(
    texts: &[String],
    cursor_row: usize,
    cursor_col: usize,
    prompt: &str,
    ps2: Option<&str>,
) -> (b: bool)
    ensures
        b == spec_at_prompt(
            strings_view(texts@),
            cursor_row as int,
            cursor_col as int,
            prompt@,
            match ps2 {
                Some(p) => Some(p@),
                None => None,
            },
        ),
{
    let ghost tv = strings_view(texts@);
    let at_cursor = match ps2 {
        Some(p2) => if cursor_col > 0 && cursor_row < texts.len() {
            assert(tv[cursor_row as int] == texts@[cursor_row as int]@);
            matches_exec(p2, texts[cursor_row].as_str())
        } else {
            false
        },
        None => false,
    };
    if at_cursor {
        return true;
    }
    match last_nonempty(texts) {
        Some(i) => {
            assert(tv[i as int] == texts@[i as int]@);
            let primary = matches_exec(prompt, texts[i].as_str());
            let secondary = match ps2 {
                Some(p2) => matches_exec(p2, texts[i].as_str()),
                None => false,
            };
            primary || secondary
        },
        None => false,
    }
}

/// The prompt pattern's first match runs to the end of the text: the line
/// holds nothing after its prompt.
pub open spec fn spec_only_prompt(p: Seq<char>, text: Seq<char>) -> bool {
    regex_valid(p) && match regex_find_end(p, text) {
        Some(e) => e >= encode_utf8(text).len(),
        None => false,
    }
}

/// Whether a line is nothing but a prompt.
pub fn is_only_prompt(p: &str, text: &str) -> (b: bool)
    requires
        text.spec_bytes().len() <= usize::MAX,
    ensures
        b == spec_only_prompt(p@, text@),
{
    match regex_find(p, text) {
        Some(Some(e)) => e >= text.len(),
        _ => false,
    }
}

/// The lines without the trailing ones that are empty or only a prompt.
pub open spec fn without_trailing_prompts(ls: Seq<LineView>, p: Seq<char>) -> Seq<LineView>
    decreases ls.len(),
{
    if ls.len() == 0 {
        ls
    } else if ls.last().1.len() == 0 || spec_only_prompt(p, ls.last().1) {
        without_trailing_prompts(ls.drop_last(), p)
    } else {
        ls
    }
}

/// Every line's text fits in memory as bytes.
pub open spec fn texts_fit(ls: Seq<RenderedLine>) -> bool {
    forall|j: int| #![trigger ls[j]] 0 <= j < ls.len() ==> encode_utf8(ls[j].text@).len() <= usize::MAX
}

/// Drops the trailing lines that are empty or hold only a prompt.
pub fn trim_trailing_prompts(lines: &mut Vec<RenderedLine>, p: &str)
    requires
        texts_fit(old(lines)@),
    ensures
        lines_view(final(lines)@) == without_trailing_prompts(lines_view(old(lines)@), p@),
{
    let ghost goal = without_trailing_prompts(lines_view(lines@), p@);
    while lines.len() > 0
        invariant
            texts_fit(lines@),
            goal == without_trailing_prompts(lines_view(old(lines)@), p@),
            without_trailing_prompts(lines_view(lines@), p@) == goal,
        decreases lines.len(),
    {
        let n = lines.len();
        let ghost lv = lines_view(lines@);
        assert(lv.last() == (lines@[n - 1].html@, lines@[n - 1].text@));
        let drop = {
            let last = &lines[n - 1];
            assert(encode_utf8(last.text@).len() <= usize::MAX);
            last.text.as_str().is_empty() || is_only_prompt(p, last.text.as_str())
        };
        if drop {
            lines.pop();
            assert(lines_view(lines@) =~= lv.drop_last());
        } else {
            assert(without_trailing_prompts(lv, p@) == lv);
            return;
        }
    }
}

/// The number of lines scrolled off the screen: all lines beyond the
/// screen's rows.
pub fn scrollback_count(total_lines: usize, rows: u16) -> (r: usize)
    ensures
        r == if total_lines > rows as usize {
            (total_lines - rows as usize) as usize
        } else {
            0usize
        },
{
    total_lines.saturating_sub(rows as usize)
}

/// The lines (as a half-open range of positions among all lines) that a
/// cell produced: from where the cursor stood after the previous cell to
/// where it stands now, taking the cursor's line too when it is not
/// empty; nothing when the range is empty or starts past the last line.
pub open spec fn spec_capture_range(
    before_row: int,
    before_scrollback: int,
    current_scrollback: int,
    current_row: int,
    texts: Seq<Seq<char>>,
) -> Option<(int, int)> {
    let start = before_scrollback + before_row;
    let end0 = current_scrollback + current_row;
    let n = texts.len() as int;
    let end = if 0 <= end0 < n && texts[end0].len() > 0 {
        end0 + 1
    } else {
        end0
    };
    if end <= start || start >= n {
        None
    } else {
        Some((start, if end < n { end } else { n }))
    }
}

/// The range of positions, among all lines (scrollback included, given as
/// their text), that a cell produced.
pub fn capture_range(
    before_row: usize,
    before_scrollback: usize,
    current_scrollback: usize,
    current_row: usize,
    texts: &[String],
) -> (r: Option<(usize, usize)>)
    requires
        before_scrollback + before_row <= usize::MAX,
        current_scrollback + current_row < usize::MAX,
    ensures
        match spec_capture_range(
            before_row as int,
            before_scrollback as int,
            current_scrollback as int,
            current_row as int,
            strings_view(texts@),
        ) {
            Some((a, b)) => r == Some((a as usize, b as usize)),
            None => r is None,
        },
{
    let start = before_scrollback + before_row;
    let end0 = current_scrollback + current_row;
    let n = texts.len();
    let end = if end0 < n && !texts[end0].as_str().is_empty() {
        end0 + 1
    } else {
        end0
    };
    proof {
        if end0 < n {
            assert(strings_view(texts@)[end0 as int] == texts@[end0 as int]@);
        }
    }
    if end <= start || start >= n {
        None
    } else {
        Some((start, if end < n { end } else { n }))
    }
}

/// The byte length of a line's prompt: the end of the primary-prompt
/// prefix match, else of the continuation-prompt prefix match, else 0.
pub open spec fn spec_prompt_len(p: Seq<char>, q: Option<Seq<char>>, text: Seq<char>) -> nat {
    if regex_valid(p) && regex_find_end(p, text) is Some {
        regex_find_end(p, text)->0
    } else {
        match q {
            Some(x) => if regex_valid(x) && regex_find_end(x, text) is Some {
                regex_find_end(x, text)->0
            } else {
                0
            },
            None => 0,
        }
    }
}

/// The number of characters in the first `e` bytes of a text.
pub open spec fn prefix_chars(text: Seq<char>, e: nat) -> nat {
    decode_utf8(encode_utf8(text).take(e as int)).len()
}

/// A line with its prompt, when it has one, wrapped in a prompt span.
pub open spec fn marked_line(l: LineView, p: Seq<char>, q: Option<Seq<char>>) -> LineView {
    let e = spec_prompt_len(p, q, l.1);
    if e > 0 {
        (spec_wrap_prompt(l.0, prefix_chars(l.1, e)), l.1)
    } else {
        l
    }
}

/// Every line marked.
pub open spec fn marked_lines(ls: Seq<LineView>, p: Seq<char>, q: Option<Seq<char>>) -> Seq<
    LineView,
> {
    ls.map_values(|l: LineView| marked_line(l, p, q))
}

/// The byte length of the prompt a line starts with.
pub fn prompt_prefix_len(p: &str, q: Option<&str>, text: &str) -> (r: usize)
    ensures
        r as nat == spec_prompt_len(
            p@,
            match q {
                Some(x) => Some(x@),
                None => None,
            },
            text@,
        ),
        r > 0 ==> is_char_boundary(encode_utf8(text@), r as int),
{
    match regex_find(p, text) {
        Some(Some(e)) => e,
        _ => match q {
            Some(x) => match regex_find(x, text) {
                Some(Some(e)) => e,
                _ => 0,
            },
            None => 0,
        },
    }
}

fn chars_in_prefix(text: &str, e: usize) -> (r: usize)
    requires
        is_char_boundary(encode_utf8(text@), e as int),
    ensures
        r as nat == prefix_chars(text@, e as nat),
{
    let (a, _) = text.split_at(e);
    proof {
        assert(a.spec_bytes() =~= encode_utf8(text@).take(e as int));
        vstd::utf8::encode_utf8_decode_utf8(a@);
    }
    let v = crate::text::str_chars(a);
    v.len()
}

/// Wraps the prompt at the start of each line's markup in a prompt span,
/// finding it with the primary-prompt prefix pattern, else the
/// continuation one.
pub fn mark_prompts(lines: &mut Vec<RenderedLine>, p: &str, q: Option<&str>)
    ensures
        lines_view(final(lines)@) == marked_lines(
            lines_view(old(lines)@),
            p@,
            match q {
                Some(x) => Some(x@),
                None => None,
            },
        ),
{
    let ghost qv = match q {
        Some(x) => Some(x@),
        None => None::<Seq<char>>,
    };
    let ghost lv = lines_view(lines@);
    let mut out: Vec<RenderedLine> = Vec::new();
    let mut j: usize = 0;
    while j < lines.len()
        invariant
            j <= lines.len(),
            lv == lines_view(lines@),
            lv == lines_view(old(lines)@),
            qv == match q {
                Some(x) => Some(x@),
                None => None::<Seq<char>>,
            },
            lines_view(out@) == marked_lines(lv.take(j as int), p@, qv),
        decreases lines.len() - j,
    {
        let line = &lines[j];
        let e = prompt_prefix_len(p, q, line.text.as_str());
        let html = if e > 0 {
            let n = chars_in_prefix(line.text.as_str(), e);
            crate::renderer::wrap_prompt_span(line.html.as_str(), n)
        } else {
            line.html.clone()
        };
        let ghost before = lines_view(out@);
        out.push(RenderedLine { html, text: line.text.clone() });
        proof {
            assert(lv[j as int] == (line.html@, line.text@));
            assert(lines_view(out@) =~= before.push(marked_line(lv[j as int], p@, qv)));
            assert(lv.take(j + 1) =~= lv.take(j as int).push(lv[j as int]));
            assert(marked_lines(lv.take(j + 1), p@, qv) =~= marked_lines(lv.take(j as int), p@, qv).push(
                marked_line(lv[j as int], p@, qv),
            ));
        }
        j += 1;
    }
    assert(lv.take(lines.len() as int) =~= lv);
    *lines = out;
}

/// Output without an escape byte asks nothing of the terminal: no reply is
/// owed.
pub proof fn law_no_escape_no_reply(b: Seq<u8>, i: int, row: nat, col: nat)
    requires
        0 <= i,
        forall|k: int| i <= k < b.len() ==> b[k] != 0x1bu8,
    ensures
        replies_from(b, i, row, col) == Seq::<u8>::empty(),
    decreases b.len() - i,
{
    if i < b.len() {
        assert(!bytes_at(b, i, status_query())) by {
            if bytes_at(b, i, status_query()) {
                assert(b.subrange(i, i + 4)[0] == b[i]);
            }
        }
        assert(!bytes_at(b, i, attributes_query())) by {
            if bytes_at(b, i, attributes_query()) {
                assert(b.subrange(i, i + 3)[0] == b[i]);
            }
        }
        assert(!bytes_at(b, i, attributes_query0())) by {
            if bytes_at(b, i, attributes_query0()) {
                assert(b.subrange(i, i + 4)[0] == b[i]);
            }
        }
        assert(!bytes_at(b, i, background_query())) by {
            if bytes_at(b, i, background_query()) {
                assert(b.subrange(i, i + 7)[0] == b[i]);
            }
        }
        assert(!bytes_at(b, i, foreground_query())) by {
            if bytes_at(b, i, foreground_query()) {
                assert(b.subrange(i, i + 7)[0] == b[i]);
            }
        }
        law_no_escape_no_reply(b, i + 1, row, col);
    }
}

/// Dropping the trailing prompts twice drops nothing more, and what is left
/// ends with a line that is neither empty nor only a prompt.
pub proof fn law_trailing_prompts_gone(ls: Seq<LineView>, p: Seq<char>)
    ensures
        without_trailing_prompts(without_trailing_prompts(ls, p), p) == without_trailing_prompts(
            ls,
            p,
        ),
        without_trailing_prompts(ls, p).len() > 0 ==> {
            let last = without_trailing_prompts(ls, p).last();
            last.1.len() > 0 && !spec_only_prompt(p, last.1)
        },
    decreases ls.len(),
{
    if ls.len() > 0 {
        if ls.last().1.len() == 0 || spec_only_prompt(p, ls.last().1) {
            law_trailing_prompts_gone(ls.drop_last(), p);
        }
    }
}

} // verus!
