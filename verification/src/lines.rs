//! How the lines of a cell are sent to the shell: the options in force for
//! each line, whether a line is typed, pasted or sent as key names, the
//! bytes that go out, and the checks of the output that come back.
use vstd::prelude::*;
use vstd::utf8::encode_utf8;
use crate::keymap::{lowercase_of, spec_is_named_key, spec_translate_keycode_from, translate};
use crate::pattern::{regex_is_match, regex_match, regex_valid};
use crate::text::{decimal, is_whitespace, is_ws, push_char, push_decimal, str_chars, strings_view};
use crate::typst::{contains_chars, contains_seq};

verus! {

/// The options a cell sets for all its lines (unset: not given).
#[derive(Debug, Clone, Copy)]
pub struct CellFlags {
    pub literal: Option<bool>,
    pub enter: Option<bool>,
    pub expect_prompt: Option<bool>,
}

/// The options given for one line of a cell (unset: not given).
#[derive(Debug, Clone, Copy)]
pub struct LineFlags {
    pub line_index: u32,
    pub literal: Option<bool>,
    pub enter: Option<bool>,
    pub expect_prompt: Option<bool>,
    pub typing: Option<bool>,
}

/// How one line is sent: as text or as key names, followed by Enter or
/// not, then waiting for a prompt or not, typed like a person or not.
#[derive(Debug, Clone, Copy, PartialEq, Eq, Structural)]
pub struct SendFlags {
    pub literal: bool,
    pub enter: bool,
    pub expect_prompt: bool,
    pub human: bool,
}

/// The option if given, else the default.
pub open spec fn or_default(o: Option<bool>, d: bool) -> bool {
    match o {
        Some(b) => b,
        None => d,
    }
}

/// The first line options, from `k` on, for line `idx`.
pub open spec fn find_line_from(opts: Seq<LineFlags>, idx: u32, k: int) -> Option<int>
    decreases opts.len() - k,
{
    if k < 0 || k >= opts.len() {
        None
    } else if opts[k].line_index == idx {
        Some(k)
    } else {
        find_line_from(opts, idx, k + 1)
    }
}

/// The position of the first line options given for line `idx`.
pub fn find_line_flags(opts: &[LineFlags], idx: u32) -> (r: Option<usize>)
    ensures
        match find_line_from(opts@, idx, 0) {
            Some(k) => r == Some(k as usize),
            None => r is None,
        },
{
    let mut k: usize = 0;
    while k < opts.len()
        invariant
            k <= opts.len(),
            find_line_from(opts@, idx, 0) == find_line_from(opts@, idx, k as int),
        decreases opts.len() - k,
    {
        if opts[k].line_index == idx {
            return Some(k);
        }
        k += 1;
    }
    None
}

/// The options in force for a line: the line's own, else the cell's, else
/// the defaults. Text is literal by default; Enter follows literalness, and
/// waiting for the prompt follows Enter; typing follows the cell's mode.
pub open spec fn spec_send_flags(cell: CellFlags, line: Option<LineFlags>, cell_human: bool) -> SendFlags {
    let literal = or_default(
        match line {
            Some(l) => l.literal,
            None => None,
        },
        or_default(cell.literal, true),
    );
    let enter = or_default(
        match line {
            Some(l) => l.enter,
            None => None,
        },
        or_default(cell.enter, literal),
    );
    let expect_prompt = or_default(
        match line {
            Some(l) => l.expect_prompt,
            None => None,
        },
        or_default(cell.expect_prompt, enter),
    );
    let human = or_default(
        match line {
            Some(l) => l.typing,
            None => None,
        },
        cell_human,
    );
    SendFlags { literal, enter, expect_prompt, human }
}

fn or_default_exec(o: Option<bool>, d: bool) -> (r: bool)
    ensures
        r == or_default(o, d),
{
    match o {
        Some(b) => b,
        None => d,
    }
}

/// Resolves the options for one line.
pub fn send_flags(cell: &CellFlags, line: Option<&LineFlags>, cell_human: bool) -> (r: SendFlags)
    ensures
        r == spec_send_flags(
            *cell,
            match line {
                Some(l) => Some(*l),
                None => None,
            },
            cell_human,
        ),
{
    let (l_literal, l_enter, l_expect, l_typing) = match line {
        Some(l) => (l.literal, l.enter, l.expect_prompt, l.typing),
        None => (None, None, None, None),
    };
    let literal = or_default_exec(l_literal, or_default_exec(cell.literal, true));
    let enter = or_default_exec(l_enter, or_default_exec(cell.enter, literal));
    let expect_prompt = or_default_exec(l_expect, or_default_exec(cell.expect_prompt, enter));
    let human = or_default_exec(l_typing, cell_human);
    SendFlags { literal, enter, expect_prompt, human }
}

/// How a line goes out.
#[derive(Debug, Clone, Copy, PartialEq, Eq, Structural)]
pub enum SendMode {
    /// Key names separated by spaces, each sent on its own.
    Keys,
    /// Literal text after the first line while the shell is not at its
    /// primary prompt, with auto-indent disabled: the line is cleared
    /// first so that the shell's indentation does not pile up.
    Paste,
    /// The line as it is.
    Plain,
}

/// The way a line is sent.
pub open spec fn spec_send_mode(
    text: Seq<char>,
    literal: bool,
    idx: nat,
    no_auto_indent: bool,
    at_primary_prompt: bool,
) -> SendMode {
    if !literal && text.contains(' ') {
        SendMode::Keys
    } else if no_auto_indent && literal && idx > 0 && !at_primary_prompt {
        SendMode::Paste
    } else {
        SendMode::Plain
    }
}

/// Chooses how the line `text`, the `idx`-th of its cell, is sent.
pub fn send_mode(
    text: &str,
    literal: bool,
    idx: usize,
    no_auto_indent: bool,
    at_primary_prompt: bool,
) -> (r: SendMode)
    ensures
        r == spec_send_mode(text@, literal, idx as nat, no_auto_indent, at_primary_prompt),
{
    if !literal {
        let v = str_chars(text);
        let mut i: usize = 0;
        while i < v.len()
            invariant
                i <= v.len(),
                v@ == text@,
                !literal,
                forall|k: int| 0 <= k < i ==> v@[k] != ' ',
            decreases v.len() - i,
        {
            if v[i] == ' ' {
                assert(text@.contains(' ')) by {
                    assert(text@[i as int] == ' ');
                }
                return SendMode::Keys;
            }
            i += 1;
        }
        assert(!text@.contains(' '));
    }
    if no_auto_indent && literal && idx > 0 && !at_primary_prompt {
        SendMode::Paste
    } else {
        SendMode::Plain
    }
}

/// The control character (Ctrl-U) that clears the shell's input line.
pub open spec fn clear_line_char() -> char {
    '\u{15}'
}

/// The text of a pasted line: the line, after a Ctrl-U.
pub fn paste_text(text: &str) -> (r: String)
    ensures
        r@ == seq![clear_line_char()] + text@,
{
    let mut r = String::new();
    push_char(&mut r, '\u{15}');
    r.append(text);
    r
}

/// The whitespace-separated words of a text, in order.
pub open spec fn words(s: Seq<char>) -> Seq<Seq<char>>
    decreases s.len(),
{
    if s.len() == 0 {
        Seq::empty()
    } else {
        let w = words(s.drop_last());
        let c = s.last();
        if is_ws(c) {
            w
        } else if s.len() >= 2 && !is_ws(s[s.len() - 2]) {
            w.update(w.len() - 1, w.last().push(c))
        } else {
            w.push(seq![c])
        }
    }
}

proof fn lemma_words_nonempty_after_word(s: Seq<char>)
    requires
        s.len() > 0,
        !is_ws(s.last()),
    ensures
        words(s).len() > 0,
    decreases s.len(),
{
    if s.len() >= 2 && !is_ws(s[s.len() - 2]) {
        assert(s.drop_last().last() == s[s.len() - 2]);
        lemma_words_nonempty_after_word(s.drop_last());
    }
}

/// Splits a text at whitespace, dropping the whitespace (the words of
/// `str::split_whitespace`).
pub fn split_words(s: &str) -> (r: Vec<String>)
    ensures
        strings_view(r@) == words(s@),
{
    let v = str_chars(s);
    let mut out: Vec<String> = Vec::new();
    let mut cur = String::new();
    let mut in_word = false;
    let mut i: usize = 0;
    while i < v.len()
        invariant
            i <= v.len(),
            v@ == s@,
            in_word <==> (i > 0 && !is_ws(v@[i - 1])),
            in_word ==> strings_view(out@).push(cur@) == words(v@.take(i as int)),
            !in_word ==> strings_view(out@) == words(v@.take(i as int)),
        decreases v.len() - i,
    {
        let c = v[i];
        let ghost t = v@.take(i + 1);
        proof {
            assert(t.drop_last() =~= v@.take(i as int));
            assert(t.last() == c);
            if i > 0 {
                assert(t[t.len() - 2] == v@[i - 1]);
            }
        }
        if is_whitespace(c) {
            if in_word {
                let ghost before = strings_view(out@);
                out.push(cur);
                assert(strings_view(out@) =~= before.push(cur@));
                cur = String::new();
            }
            in_word = false;
        } else {
            if in_word {
                proof {
                    let w = words(v@.take(i as int));
                    assert(w.len() > 0);
                    assert(w.update(w.len() - 1, w.last().push(c)) =~= strings_view(out@).push(
                        cur@.push(c),
                    ));
                }
                push_char(&mut cur, c);
            } else {
                cur = String::new();
                push_char(&mut cur, c);
                assert(cur@ =~= seq![c]);
            }
            in_word = true;
        }
        i += 1;
    }
    assert(v@.take(v.len() as int) =~= v@);
    if in_word {
        let ghost before = strings_view(out@);
        out.push(cur);
        assert(strings_view(out@) =~= before.push(cur@));
    }
    out
}

/// One key name of a line sent as key names. Only the last key gets the
/// line's Enter and its wait for the prompt.
pub struct KeyStep {
    pub key: String,
    pub enter: bool,
    pub expect_prompt: bool,
    pub last: bool,
}

/// The key names of a line, in order, with the line's Enter and prompt
/// wait on the last one only.
pub fn key_steps(text: &str, enter: bool, expect_prompt: bool) -> (r: Vec<KeyStep>)
    ensures
        r.len() == words(text@).len(),
        forall|k: int|
            0 <= k < r.len() ==> {
                let last = k == r.len() - 1;
                &&& (#[trigger] r@[k]).key@ == words(text@)[k]
                &&& r@[k].last == last
                &&& r@[k].enter == (last && enter)
                &&& r@[k].expect_prompt == (last && expect_prompt)
            },
{
    let keys = split_words(text);
    let ghost kv = strings_view(keys@);
    let n = keys.len();
    let mut r: Vec<KeyStep> = Vec::new();
    let mut k: usize = 0;
    while k < n
        invariant
            k <= n == keys.len(),
            kv == strings_view(keys@),
            kv == words(text@),
            r.len() == k,
            forall|m: int|
                0 <= m < k ==> {
                    let last = m == n - 1;
                    &&& (#[trigger] r@[m]).key@ == kv[m]
                    &&& r@[m].last == last
                    &&& r@[m].enter == (last && enter)
                    &&& r@[m].expect_prompt == (last && expect_prompt)
                },
        decreases n - k,
    {
        let last = k == n - 1;
        let key = keys[k].clone();
        assert(key@ == kv[k as int]);
        r.push(KeyStep { key, enter: last && enter, expect_prompt: last && expect_prompt, last });
        k += 1;
    }
    r
}

/// The bytes sent for a line that is not typed like a person: literal text
/// as UTF-8, or the bytes of a key name; then a carriage return for Enter,
/// except after a named key, which is sent alone.
pub open spec fn spec_line_bytes(text: Seq<char>, literal: bool, enter: bool) -> Seq<u8> {
    if literal {
        encode_utf8(text) + if enter {
            seq![0x0du8]
        } else {
            Seq::empty()
        }
    } else {
        spec_translate_keycode_from(lowercase_of(text), text) + if enter && !spec_is_named_key(
            text,
        ) {
            seq![0x0du8]
        } else {
            Seq::empty()
        }
    }
}

/// The bytes to write for a line (or a key name) sent at once.
pub fn line_bytes(text: &str, literal: bool, enter: bool) -> (r: Vec<u8>)
    ensures
        r@ == spec_line_bytes(text@, literal, enter),
{
    if literal {
        let mut b = vstd::slice::slice_to_vec(text.as_bytes());
        if enter {
            b.push(0x0d);
        }
        assert(b@ =~= spec_line_bytes(text@, literal, enter));
        b
    } else {
        let key = translate(text);
        let mut b = key.bytes;
        if enter && !key.is_named {
            b.push(0x0d);
        }
        assert(b@ =~= spec_line_bytes(text@, literal, enter));
        b
    }
}

/// The byte sent on the given attempt to bring a shell left at its
/// continuation prompt back to the primary one: Enter twice, then Ctrl-C;
/// nothing after three attempts.
pub fn recovery_byte(attempt: usize) -> (r: Option<u8>)
    ensures
        r == if attempt < 2 {
            Some(0x0du8)
        } else if attempt == 2 {
            Some(0x03u8)
        } else {
            None::<u8>
        },
{
    if attempt < 2 {
        Some(0x0d)
    } else if attempt == 2 {
        Some(0x03)
    } else {
        None
    }
}

/// Whether an assertion's pattern is found in the output: as a regular
/// expression when it compiles, else as plain text.
pub open spec fn spec_pattern_found(pattern: Seq<char>, output: Seq<char>) -> bool {
    if regex_valid(pattern) {
        regex_match(pattern, output)
    } else {
        contains_seq(output, pattern)
    }
}

/// Checks an assertion's pattern against the output.
pub fn pattern_found(pattern: &str, output: &str) -> (b: bool)
    ensures
        b == spec_pattern_found(pattern@, output@),
{
    match regex_is_match(pattern, output) {
        Some(m) => m,
        None => contains_chars(&str_chars(output), &str_chars(pattern)),
    }
}

/// `{:?}` of a string: the string quoted, with `Debug` escapes.
pub uninterp spec fn debug_form(s: Seq<char>) -> Seq<char>;

/// `format!("{:?}", s)`: the `Debug` form of a string slice.
#[verifier::external_body]
fn debug_quote(s: &str) -> (r: String)
    ensures
        r@ == debug_form(s@),
{
    format!("{:?}", s)
}

/// The error for a line whose output lacks its assertion's pattern.
pub open spec fn line_assertion_message(line_number: nat, pattern: Seq<char>) -> Seq<char> {
    "assertion failed on line "@ + decimal(line_number) + ": pattern "@ + debug_form(pattern)
        + " not found in output"@
}

/// The error for a cell whose output lacks its assertion's pattern.
pub open spec fn cell_assertion_message(pattern: Seq<char>) -> Seq<char> {
    "assertion failed: pattern "@ + debug_form(pattern) + " not found in cell output"@
}

/// Checks the assertion of the `idx`-th line (0-based) against what the
/// line printed; the error numbers lines from 1.
pub fn check_line_assertion(idx: u32, pattern: &str, output: &str) -> (r: Option<String>)
    ensures
        r is None <==> spec_pattern_found(pattern@, output@),
        r matches Some(m) ==> m@ == line_assertion_message((idx + 1) as nat, pattern@),
{
    if pattern_found(pattern, output) {
        return None;
    }
    let mut m = String::new();
    m.append("assertion failed on line ");
    push_decimal(&mut m, idx as u64 + 1);
    m.append(": pattern ");
    let q = debug_quote(pattern);
    m.append(q.as_str());
    m.append(" not found in output");
    Some(m)
}

/// Checks the cell's assertion against everything the cell printed.
pub fn check_cell_assertion(pattern: &str, output: &str) -> (r: Option<String>)
    ensures
        r is None <==> spec_pattern_found(pattern@, output@),
        r matches Some(m) ==> m@ == cell_assertion_message(pattern@),
{
    if pattern_found(pattern, output) {
        return None;
    }
    let mut m = String::new();
    m.append("assertion failed: pattern ");
    let q = debug_quote(pattern);
    m.append(q.as_str());
    m.append(" not found in cell output");
    Some(m)
}

/// Enter follows literalness and the prompt wait follows Enter when
/// neither the line nor the cell sets them: text is sent with Enter and
/// waited on, a key name alone and not waited on.
pub proof fn law_enter_follows_literal(cell: CellFlags, line: Option<LineFlags>, human: bool)
    requires
        cell.enter is None,
        cell.expect_prompt is None,
        line matches Some(l) ==> l.enter is None && l.expect_prompt is None,
    ensures
        spec_send_flags(cell, line, human).enter == spec_send_flags(cell, line, human).literal,
        spec_send_flags(cell, line, human).expect_prompt == spec_send_flags(
            cell,
            line,
            human,
        ).enter,
{
}

/// The words of a text are not empty and hold no whitespace.
pub proof fn law_words_are_words(s: Seq<char>)
    ensures
        forall|k: int| 0 <= k < words(s).len() ==> (#[trigger] words(s)[k]).len() > 0,
        forall|k: int, j: int|
            0 <= k < words(s).len() && 0 <= j < words(s)[k].len() ==> !is_ws(
                #[trigger] words(s)[k][j],
            ),
    decreases s.len(),
{
    if s.len() > 0 {
        law_words_are_words(s.drop_last());
        let w = words(s.drop_last());
        let c = s.last();
        if is_ws(c) {
        } else if s.len() >= 2 && !is_ws(s[s.len() - 2]) {
            assert(s.drop_last().last() == s[s.len() - 2]);
            lemma_words_nonempty_after_word(s.drop_last());
            let u = w.update(w.len() - 1, w.last().push(c));
            assert(words(s) == u);
            assert forall|k: int, j: int| 0 <= k < u.len() && 0 <= j < u[k].len() implies !is_ws(
                u[k][j],
            ) by {
                if k == w.len() - 1 {
                    if j < w.last().len() {
                        assert(u[k][j] == w[k][j]);
                    }
                } else {
                    assert(u[k] == w[k]);
                }
            }
        } else {
            let u = w.push(seq![c]);
            assert(words(s) == u);
            assert forall|k: int, j: int| 0 <= k < u.len() && 0 <= j < u[k].len() implies !is_ws(
                u[k][j],
            ) by {
                if k < w.len() {
                    assert(u[k] == w[k]);
                }
            }
        }
    }
}

} // verus!
