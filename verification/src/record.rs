//! Session recordings (asciicast or termshow files) and the command line of
//! the `check` mode: the decisions that do not touch a file.
use vstd::prelude::*;
use crate::text::{flat_map, hex2, str_chars};

verus! {

/// The format a recording is written in.
#[derive(Debug, Clone, Copy, PartialEq, Eq, Structural)]
pub enum RecordingFormat {
    /// asciicast v2, with times since the start.
    Asciicast,
    /// termshow, with times since the previous event.
    Termshow,
}

/// `s` ends with `suffix`.
pub open spec fn has_suffix(s: Seq<char>, suffix: Seq<char>) -> bool {
    suffix.len() <= s.len() && s.skip(s.len() - suffix.len()) == suffix
}

/// `s` starts with `prefix`.
pub open spec fn has_start(s: Seq<char>, prefix: Seq<char>) -> bool {
    prefix.len() <= s.len() && s.take(prefix.len() as int) == prefix
}

/// `.termshow`.
pub open spec fn termshow_suffix() -> Seq<char> {
    seq!['.', 't', 'e', 'r', 'm', 's', 'h', 'o', 'w']
}

fn ends_with_chars(s: &[char], suffix: &[char]) -> (b: bool)
    ensures
        b == has_suffix(s@, suffix@),
{
    if suffix.len() > s.len() {
        return false;
    }
    let off = s.len() - suffix.len();
    let mut i: usize = 0;
    while i < suffix.len()
        invariant
            suffix.len() <= s.len(),
            off == s.len() - suffix.len(),
            i <= suffix.len(),
            forall|k: int| 0 <= k < i ==> s@[off + k] == suffix@[k],
        decreases suffix.len() - i,
    {
        if s[off + i] != suffix[i] {
            assert(s@.skip(off as int)[i as int] != suffix@[i as int]);
            return false;
        }
        i += 1;
    }
    assert(s@.skip(off as int) =~= suffix@);
    true
}

/// The format a path calls for: termshow for a `.termshow` file, asciicast
/// otherwise.
pub fn recording_format(path: &str) -> (f: RecordingFormat)
    ensures
        f == if has_suffix(path@, termshow_suffix()) {
            RecordingFormat::Termshow
        } else {
            RecordingFormat::Asciicast
        },
{
    let p = str_chars(path);
    if ends_with_chars(&p, &['.', 't', 'e', 'r', 'm', 's', 'h', 'o', 'w']) {
        RecordingFormat::Termshow
    } else {
        RecordingFormat::Asciicast
    }
}

/// The companion file of a termshow recording: its path with `.yml` added.
pub fn companion_path(path: &str) -> (r: String)
    ensures
        r@ == path@ + ".yml"@,
{
    let mut r = path.to_owned();
    r.append(".yml");
    r
}

/// The last component of a path, as `std::path::Path::file_name` finds it
/// (none for a path ending in `..`, a root or an empty path).
pub uninterp spec fn file_name_of(path: Seq<char>) -> Option<Seq<char>>;

/// `Path::new(path).file_name()`, as a string (a name taken from a `&str`
/// is valid UTF-8, so `to_str` keeps it).
#[verifier::external_body]
fn path_file_name(path: &str) -> (r: Option<String>)
    ensures
        match file_name_of(path@) {
            Some(n) => r matches Some(x) && x@ == n,
            None => r is None,
        },
{
    std::path::Path::new(path).file_name().and_then(|f| f.to_str()).map(|f| f.to_string())
}

/// The contents of a termshow recording's companion file: the recording's
/// file name (the whole path when it has none) as its source.
pub fn companion_contents(path: &str) -> (r: String)
    ensures
        r@ == "source: "@ + (match file_name_of(path@) {
            Some(n) => n,
            None => path@,
        }) + "\n"@,
{
    let mut r = String::new();
    r.append("source: ");
    match path_file_name(path) {
        Some(n) => r.append(n.as_str()),
        None => r.append(path),
    }
    r.append("\n");
    r
}

/// How a character is written inside a JSON string by `serde_json`: a
/// backslash before `"` and `\`; `\b`, `\t`, `\n`, `\f`, `\r` for
/// those controls; `\u00xx` (lower-case hex) for the other controls
/// below 0x20; every other character as it is.
pub open spec fn json_char_esc(c: char) -> Seq<char> {
    if c == '"' {
        seq!['\\', '"']
    } else if c == '\\' {
        seq!['\\', '\\']
    } else if c == '\u{8}' {
        seq!['\\', 'b']
    } else if c == '\t' {
        seq!['\\', 't']
    } else if c == '\n' {
        seq!['\\', 'n']
    } else if c == '\u{c}' {
        seq!['\\', 'f']
    } else if c == '\r' {
        seq!['\\', 'r']
    } else if (c as u32) < 0x20 {
        seq!['\\', 'u', '0', '0'] + hex2(c as u8, false)
    } else {
        seq![c]
    }
}

/// The JSON string literal of a text, as `serde_json::to_string` writes it.
pub open spec fn spec_json_string(s: Seq<char>) -> Seq<char> {
    seq!['"'] + flat_map(s, |c: char| json_char_esc(c)) + seq!['"']
}

/// `serde_json::to_string(s)`: the string as a JSON string literal
/// (serde_json-1.0.154 `format_escaped_str`; writing a string into a
/// buffer cannot fail).
#[verifier::external_body]
fn json_string(s: &str) -> (r: String)
    ensures
        r@ == spec_json_string(s@),
{
    serde_json::to_string(s).unwrap_or_default()
}

/// The part of an event line after its time: the event type, quoted, and
/// the data as a JSON string.
pub fn event_payload(event_type: &str, data: &str) -> (r: String)
    ensures
        r@ == "\""@ + event_type@ + "\", "@ + spec_json_string(data@),
{
    let mut r = String::new();
    r.append("\"");
    r.append(event_type);
    r.append("\", ");
    let j = json_string(data);
    r.append(j.as_str());
    r
}

/// `--record`.
pub open spec fn record_flag() -> Seq<char> {
    seq!['-', '-', 'r', 'e', 'c', 'o', 'r', 'd']
}

/// The first `--record`, from `k` on.
pub open spec fn first_record_flag(args: Seq<Seq<char>>, k: int) -> Option<int>
    decreases args.len() - k,
{
    if k < 0 || k >= args.len() {
        None
    } else if args[k] == record_flag() {
        Some(k)
    } else {
        first_record_flag(args, k + 1)
    }
}

/// The recording path of the `check` mode: the argument after the first
/// `--record`, when there is one and it is no option.
pub open spec fn spec_record_arg(args: Seq<Seq<char>>) -> Option<int> {
    match first_record_flag(args, 0) {
        Some(i) => if i + 1 < args.len() && !has_start(args[i + 1], seq!['-']) {
            Some(i + 1)
        } else {
            None
        },
        None => None,
    }
}

/// An argument the `check` mode takes for the document: no option and no
/// recording, or a `.qmd` file.
pub open spec fn is_document_arg(a: Seq<char>) -> bool {
    (!has_start(a, seq!['-']) && !has_suffix(a, seq!['.', 'c', 'a', 's', 't']) && !has_suffix(
        a,
        termshow_suffix(),
    )) || has_suffix(a, seq!['.', 'q', 'm', 'd'])
}

/// The first document argument, from `k` on.
pub open spec fn first_document_arg(args: Seq<Seq<char>>, k: int) -> Option<int>
    decreases args.len() - k,
{
    if k < 0 || k >= args.len() {
        None
    } else if is_document_arg(args[k]) {
        Some(k)
    } else {
        first_document_arg(args, k + 1)
    }
}

fn starts_with_dash(a: &[char]) -> (b: bool)
    ensures
        b == has_start(a@, seq!['-']),
{
    if a.len() == 0 {
        false
    } else {
        if a[0] == '-' {
            assert(a@.take(1) =~= seq!['-']);
            true
        } else {
            assert(a@.take(1)[0] != seq!['-'][0]);
            false
        }
    }
}

fn find_record_arg(args: &[String]) -> (r: Option<usize>)
    ensures
        match spec_record_arg(crate::text::strings_view(args@)) {
            Some(i) => r == Some(i as usize),
            None => r is None,
        },
{
    let ghost av = crate::text::strings_view(args@);
    let mut k: usize = 0;
    while k < args.len()
        invariant
            k <= args.len(),
            av == crate::text::strings_view(args@),
            first_record_flag(av, 0) == first_record_flag(av, k as int),
        decreases args.len() - k,
    {
        let a = str_chars(args[k].as_str());
        assert(av[k as int] == a@);
        if crate::keymap::eq_chars(&a, &['-', '-', 'r', 'e', 'c', 'o', 'r', 'd']) {
            if k + 1 < args.len() {
                let next = str_chars(args[k + 1].as_str());
                assert(av[k + 1] == next@);
                if !starts_with_dash(&next) {
                    return Some(k + 1);
                }
            }
            return None;
        }
        k += 1;
    }
    None
}

fn find_document_arg(args: &[String]) -> (r: Option<usize>)
    ensures
        match first_document_arg(crate::text::strings_view(args@), 0) {
            Some(i) => r == Some(i as usize),
            None => r is None,
        },
{
    let ghost av = crate::text::strings_view(args@);
    let mut j: usize = 0;
    while j < args.len()
        invariant
            j <= args.len(),
            av == crate::text::strings_view(args@),
            first_document_arg(av, 0) == first_document_arg(av, j as int),
        decreases args.len() - j,
    {
        let a = str_chars(args[j].as_str());
        assert(av[j as int] == a@);
        let doc = (!starts_with_dash(&a) && !ends_with_chars(&a, &['.', 'c', 'a', 's', 't'])
            && !ends_with_chars(&a, &['.', 't', 'e', 'r', 'm', 's', 'h', 'o', 'w']))
            || ends_with_chars(&a, &['.', 'q', 'm', 'd']);
        if doc {
            return Some(j);
        }
        j += 1;
    }
    None
}

/// The positions, among the `check` mode's arguments, of the recording
/// path and of the document.
pub fn check_arguments(args: &[String]) -> (r: (Option<usize>, Option<usize>))
    ensures
        ({
            let av = crate::text::strings_view(args@);
            &&& match spec_record_arg(av) {
                Some(i) => r.0 == Some(i as usize),
                None => r.0 is None,
            }
            &&& match first_document_arg(av, 0) {
                Some(i) => r.1 == Some(i as usize),
                None => r.1 is None,
            }
        }),
{
    (find_record_arg(args), find_document_arg(args))
}

} // verus!
