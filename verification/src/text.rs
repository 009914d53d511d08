//! Character-level helpers shared by the renderers.
use vstd::prelude::*;

verus! {

/// Appends one character to a string (`String::push`).
#[verifier::external_body]
pub(crate) fn push_char(s: &mut String, c: char)
    ensures
        final(s)@ == old(s)@.push(c),
{
    s.push(c);
}

/// Collects the characters of a string slice into a vector.
pub fn str_chars(s: &str) -> (v: Vec<char>)
    ensures
        v@ == s@,
{
    let mut v: Vec<char> = Vec::new();
    for c in it: s.chars()
        invariant
            v@ == it.seq().take(it.index() as int),
            it.seq() == s@,
    {
        v.push(c);
    }
    v
}

/// Builds a string from a sequence of characters.
pub fn chars_to_string(v: &[char]) -> (s: String)
    ensures
        s@ == v@,
{
    let mut s = String::new();
    let mut i: usize = 0;
    while i < v.len()
        invariant
            i <= v.len(),
            s@ == v@.take(i as int),
        decreases v.len() - i,
    {
        push_char(&mut s, v[i]);
        assert(v@.take(i as int + 1) == v@.take(i as int).push(v@[i as int]));
        i += 1;
    }
    assert(v@.take(v.len() as int) == v@);
    s
}

} // verus!

verus! {

/// Unicode `White_Space` property, as used by `char::is_whitespace` and the
/// `trim` family of `str`.
pub open spec fn is_ws(c: char) -> bool {
    let u = c as u32;
    ||| (0x9 <= u && u <= 0xD)
    ||| u == 0x20
    ||| u == 0x85
    ||| u == 0xA0
    ||| u == 0x1680
    ||| (0x2000 <= u && u <= 0x200A)
    ||| u == 0x2028
    ||| u == 0x2029
    ||| u == 0x202F
    ||| u == 0x205F
    ||| u == 0x3000
}

/// `s` without its trailing whitespace.
pub open spec fn trim_end_seq(s: Seq<char>) -> Seq<char>
    decreases s.len(),
{
    if s.len() > 0 && is_ws(s.last()) {
        trim_end_seq(s.drop_last())
    } else {
        s
    }
}

/// `s` without its leading whitespace.
pub open spec fn trim_start_seq(s: Seq<char>) -> Seq<char>
    decreases s.len(),
{
    if s.len() > 0 && is_ws(s[0]) {
        trim_start_seq(s.drop_first())
    } else {
        s
    }
}

/// `s` without leading and trailing whitespace.
pub open spec fn trim_seq(s: Seq<char>) -> Seq<char> {
    trim_end_seq(trim_start_seq(s))
}

/// Whether `c` is Unicode whitespace.
pub fn is_whitespace(c: char) -> (b: bool)
    ensures
        b == is_ws(c),
{
    let u = c as u32;
    (0x9 <= u && u <= 0xD) || u == 0x20 || u == 0x85 || u == 0xA0 || u == 0x1680 || (0x2000
        <= u && u <= 0x200A) || u == 0x2028 || u == 0x2029 || u == 0x202F || u == 0x205F || u
        == 0x3000
}

proof fn lemma_trim_end_take(s: Seq<char>, k: int)
    requires
        0 <= k < s.len(),
        forall|j: int| k <= j < s.len() ==> is_ws(#[trigger] s[j]),
    ensures
        trim_end_seq(s) == trim_end_seq(s.take(k)),
    decreases s.len() - k,
{
    assert(s.take(s.len() - 1) =~= s.drop_last());
    if k == s.len() - 1 {
    } else {
        lemma_trim_end_take(s.drop_last(), k);
        assert(s.drop_last().take(k) =~= s.take(k));
    }
}

/// Length of `v` once its trailing whitespace is removed.
pub fn trim_end_len(v: &[char]) -> (k: usize)
    ensures
        k <= v.len(),
        v@.take(k as int) == trim_end_seq(v@),
{
    let mut k: usize = v.len();
    while k > 0 && is_whitespace(v[k - 1])
        invariant
            k <= v.len(),
            forall|j: int| k <= j < v.len() ==> is_ws(#[trigger] v@[j]),
        decreases k,
    {
        k -= 1;
    }
    if k < v.len() {
        proof {
            lemma_trim_end_take(v@, k as int);
        }
    }
    assert(v@.take(v.len() as int) =~= v@);
    let ghost t = v@.take(k as int);
    assert(t.len() == 0 || !is_ws(t.last()));
    k
}

proof fn lemma_trim_start_skip(s: Seq<char>, k: int)
    requires
        0 <= k <= s.len(),
        forall|j: int| 0 <= j < k ==> is_ws(#[trigger] s[j]),
    ensures
        trim_start_seq(s) == trim_start_seq(s.skip(k)),
    decreases k,
{
    if k > 0 {
        assert(s.skip(1) =~= s.drop_first());
        lemma_trim_start_skip(s.drop_first(), k - 1);
        assert(s.drop_first().skip(k - 1) =~= s.skip(k));
    } else {
        assert(s.skip(0) =~= s);
    }
}

/// Number of leading whitespace characters of `v`.
pub fn trim_start_len(v: &[char]) -> (k: usize)
    ensures
        k <= v.len(),
        v@.skip(k as int) == trim_start_seq(v@),
{
    let mut k: usize = 0;
    while k < v.len() && is_whitespace(v[k])
        invariant
            k <= v.len(),
            forall|j: int| 0 <= j < k ==> is_ws(#[trigger] v@[j]),
        decreases v.len() - k,
    {
        k += 1;
    }
    proof {
        lemma_trim_start_skip(v@, k as int);
    }
    k
}

/// `s` without trailing whitespace (`str::trim_end`).
pub fn trim_end_str(s: &str) -> (r: String)
    ensures
        r@ == trim_end_seq(s@),
{
    let v = str_chars(s);
    let k = trim_end_len(&v);
    let mut out = String::new();
    let mut i: usize = 0;
    while i < k
        invariant
            k <= v.len(),
            i <= k,
            out@ == v@.take(i as int),
        decreases k - i,
    {
        push_char(&mut out, v[i]);
        assert(v@.take(i as int + 1) == v@.take(i as int).push(v@[i as int]));
        i += 1;
    }
    out
}

/// Subsequence `v[from..to]` as a vector.
pub fn slice_vec(v: &[char], from: usize, to: usize) -> (r: Vec<char>)
    requires
        from <= to <= v.len(),
    ensures
        r@ == v@.subrange(from as int, to as int),
{
    let mut r: Vec<char> = Vec::new();
    let mut i = from;
    while i < to
        invariant
            from <= i <= to <= v.len(),
            r@ == v@.subrange(from as int, i as int),
        decreases to - i,
    {
        r.push(v[i]);
        assert(v@.subrange(from as int, i + 1) == v@.subrange(from as int, i as int).push(
            v@[i as int],
        ));
        i += 1;
    }
    r
}

/// `v` without leading and trailing whitespace (`str::trim`).
pub fn trim_chars(v: &[char]) -> (r: Vec<char>)
    ensures
        r@ == trim_seq(v@),
{
    let a = trim_start_len(v);
    let rest = slice_vec(v, a, v.len());
    assert(rest@ == v@.skip(a as int));
    let b = trim_end_len(&rest);
    slice_vec(&rest, 0, b)
}

/// The decimal digit character for `d < 10`.
pub open spec fn digit_char(d: nat) -> char {
    (48 + d) as char
}

/// Decimal representation of a natural number, without sign or padding.
pub open spec fn decimal(n: nat) -> Seq<char>
    decreases n,
{
    if n < 10 {
        seq![digit_char(n)]
    } else {
        decimal(n / 10).push(digit_char(n % 10))
    }
}

/// Appends the decimal representation of `n`.
pub fn push_decimal(s: &mut String, n: u64)
    ensures
        final(s)@ == old(s)@ + decimal(n as nat),
    decreases n,
{
    if n >= 10 {
        push_decimal(s, n / 10);
    }
    let d = (n % 10) as u8;
    let c = (48u8 + d) as char;
    push_char(s, c);
}

} // verus!

verus! {

/// One hexadecimal digit (`n < 16`), upper or lower case.
pub open spec fn hex_digit(n: nat, upper: bool) -> char {
    if n < 10 {
        digit_char(n)
    } else if upper {
        (55 + n) as char
    } else {
        (87 + n) as char
    }
}

/// A byte as two hexadecimal digits (the `{:02X}` / `{:02x}` format).
pub open spec fn hex2(b: u8, upper: bool) -> Seq<char> {
    seq![hex_digit((b / 16) as nat, upper), hex_digit((b % 16) as nat, upper)]
}

fn hex_char(n: u8, upper: bool) -> (c: char)
    requires
        n < 16,
    ensures
        c == hex_digit(n as nat, upper),
{
    if n < 10 {
        (48u8 + n) as char
    } else if upper {
        (55u8 + n) as char
    } else {
        (87u8 + n) as char
    }
}

/// Appends `b` as two hexadecimal digits.
pub fn push_hex2(s: &mut String, b: u8, upper: bool)
    ensures
        final(s)@ == old(s)@ + hex2(b, upper),
{
    push_char(s, hex_char(b / 16, upper));
    push_char(s, hex_char(b % 16, upper));
}

} // verus!

verus! {

/// Concatenation of `f` over the elements of `s`, in order.
pub open spec fn flat_map<A>(s: Seq<A>, f: spec_fn(A) -> Seq<char>) -> Seq<char>
    decreases s.len(),
{
    if s.len() == 0 {
        Seq::empty()
    } else {
        flat_map(s.drop_last(), f) + f(s.last())
    }
}

/// Extending the input by one element extends the output by its image.
pub proof fn lemma_flat_map_take<A>(s: Seq<A>, f: spec_fn(A) -> Seq<char>, i: int)
    requires
        0 <= i < s.len(),
    ensures
        flat_map(s.take(i + 1), f) == flat_map(s.take(i), f) + f(s[i]),
{
    assert(s.take(i + 1).drop_last() =~= s.take(i));
}

/// `flat_map` over a whole sequence, seen through `take`.
pub proof fn lemma_take_full<A>(s: Seq<A>)
    ensures
        s.take(s.len() as int) == s,
{
    assert(s.take(s.len() as int) =~= s);
}

/// The parts joined with `sep` between consecutive parts.
pub open spec fn join(parts: Seq<Seq<char>>, sep: Seq<char>) -> Seq<char>
    decreases parts.len(),
{
    if parts.len() == 0 {
        Seq::empty()
    } else if parts.len() == 1 {
        parts[0]
    } else {
        join(parts.drop_last(), sep) + sep + parts.last()
    }
}

/// The character views of a list of strings.
pub open spec fn strings_view(v: Seq<String>) -> Seq<Seq<char>> {
    v.map_values(|s: String| s@)
}

/// Joins strings with a separator between consecutive ones.
pub fn join_strings(parts: &Vec<String>, sep: &str) -> (r: String)
    ensures
        r@ == join(strings_view(parts@), sep@),
{
    let mut r = String::new();
    let ghost pv = strings_view(parts@);
    let mut i: usize = 0;
    while i < parts.len()
        invariant
            i <= parts.len(),
            pv == strings_view(parts@),
            r@ == join(pv.take(i as int), sep@),
        decreases parts.len() - i,
    {
        assert(pv.take(i + 1).drop_last() =~= pv.take(i as int));
        if i != 0 {
            r.append(sep);
        } else {
            assert(pv.take(1) =~= seq![pv[0]]);
        }
        r.append(parts[i].as_str());
        i += 1;
    }
    assert(pv.take(parts.len() as int) =~= pv);
    r
}

} // verus!

verus! {

/// ASCII decimal digit.
pub open spec fn is_digit(c: char) -> bool {
    '0' <= c && c <= '9'
}

/// Value of a digit character.
pub open spec fn digit_value(c: char) -> int {
    c as int - 48
}

/// Value of a string of decimal digits (0 for the empty string).
pub open spec fn digits_value(s: Seq<char>) -> int
    decreases s.len(),
{
    if s.len() == 0 {
        0
    } else {
        digits_value(s.drop_last()) * 10 + digit_value(s.last())
    }
}

/// Whether every character of `s` is a digit.
pub open spec fn all_digits(s: Seq<char>) -> bool {
    forall|i: int| 0 <= i < s.len() ==> is_digit(#[trigger] s[i])
}

/// Length of the leading sign of `s`, if any.
pub open spec fn sign_len(s: Seq<char>) -> int {
    if s.len() > 0 && (s[0] == '+' || s[0] == '-') {
        1
    } else {
        0
    }
}

/// What `str::parse::<i32>` accepts: an optional `+` or `-` followed by at
/// least one ASCII digit and nothing else, whose value fits in `i32`.
pub open spec fn spec_parse_i32(s: Seq<char>) -> Option<i32> {
    let ds = s.skip(sign_len(s));
    let v = if s.len() > 0 && s[0] == '-' {
        -digits_value(ds)
    } else {
        digits_value(ds)
    };
    if ds.len() > 0 && all_digits(ds) && i32::MIN <= v <= i32::MAX {
        Some(v as i32)
    } else {
        None
    }
}

proof fn lemma_digits_nonneg(s: Seq<char>)
    requires
        forall|i: int| 0 <= i < s.len() ==> is_digit(#[trigger] s[i]),
    ensures
        digits_value(s) >= 0,
    decreases s.len(),
{
    if s.len() > 0 {
        lemma_digits_nonneg(s.drop_last());
    }
}

/// Parses a decimal `i32` as `str::parse::<i32>` does.
pub fn parse_i32(v: &[char]) -> (r: Option<i32>)
    ensures
        r == spec_parse_i32(v@),
{
    let n = v.len();
    let neg = n > 0 && v[0] == '-';
    let start: usize = if n > 0 && (v[0] == '+' || v[0] == '-') { 1 } else { 0 };
    let ghost ds = v@.skip(start as int);
    if start >= n {
        return None;
    }
    let mut acc: i64 = 0;
    let mut big = false;
    let mut i = start;
    while i < n
        invariant
            start <= i <= n == v.len(),
            start == sign_len(v@),
            ds == v@.skip(start as int),
            forall|k: int| start <= k < i ==> is_digit(#[trigger] v@[k]),
            !big ==> acc == digits_value(v@.subrange(start as int, i as int)) && 0 <= acc
                <= 2147483648,
            big ==> digits_value(v@.subrange(start as int, i as int)) > 2147483648,
        decreases n - i,
    {
        let c = v[i];
        if !('0' <= c && c <= '9') {
            proof {
                assert(ds[i - start] == c);
                assert(!is_digit(ds[i - start]));
            }
            return None;
        }
        let d = (c as u32 - 48) as i64;
        proof {
            let sub = v@.subrange(start as int, i + 1);
            assert(sub.drop_last() =~= v@.subrange(start as int, i as int));
            assert(forall|k: int| 0 <= k < sub.drop_last().len() ==> is_digit(
                #[trigger] sub.drop_last()[k],
            ));
            lemma_digits_nonneg(sub.drop_last());
        }
        if !big {
            let next = acc * 10 + d;
            if next > 2147483648 {
                big = true;
            } else {
                acc = next;
            }
        }
        i += 1;
    }
    assert(v@.subrange(start as int, n as int) =~= ds);
    if big {
        return None;
    }
    if neg {
        Some((-acc) as i32)
    } else if acc <= 2147483647 {
        Some(acc as i32)
    } else {
        None
    }
}

} // verus!

verus! {

/// ASCII lower-casing of one character.
pub open spec fn lower_ascii(c: char) -> char {
    if 'A' <= c && c <= 'Z' {
        ((c as u32) + 32) as char
    } else {
        c
    }
}

/// `s` equals the lower-case word `w` once lower-cased (ASCII).
pub open spec fn eq_ignore_case(s: Seq<char>, w: Seq<char>) -> bool {
    s.len() == w.len() && forall|i: int| 0 <= i < s.len() ==> lower_ascii(#[trigger] s[i]) == w[i]
}

/// Index of the first character of `s` at or after `from` that is `e` or
/// `E`.
pub open spec fn first_exp_mark(s: Seq<char>, from: int) -> Option<int>
    decreases s.len() - from,
{
    if from < 0 || from >= s.len() {
        None
    } else if s[from] == 'e' || s[from] == 'E' {
        Some(from)
    } else {
        first_exp_mark(s, from + 1)
    }
}

/// Index of the first `.` of `s` at or after `from`.
pub open spec fn first_dot(s: Seq<char>, from: int) -> Option<int>
    decreases s.len() - from,
{
    if from < 0 || from >= s.len() {
        None
    } else if s[from] == '.' {
        Some(from)
    } else {
        first_dot(s, from + 1)
    }
}

/// `Digit+ | Digit+ '.' Digit* | Digit* '.' Digit+`.
pub open spec fn is_mantissa(m: Seq<char>) -> bool {
    match first_dot(m, 0) {
        None => m.len() > 0 && all_digits(m),
        Some(p) => m.len() > 1 && all_digits(m.take(p)) && all_digits(m.skip(p + 1)),
    }
}

/// `Sign? Digit+`.
pub open spec fn is_exponent(x: Seq<char>) -> bool {
    let d = x.skip(sign_len(x));
    d.len() > 0 && all_digits(d)
}

/// What `str::parse::<f64>` accepts, per its documented grammar, read
/// case-insensitively: `Sign? ('inf' | 'infinity' | 'nan' | Number)` with
/// `Number ::= Mantissa ('e' Sign? Digit+)?`; no surrounding whitespace.
pub open spec fn is_float_literal(s: Seq<char>) -> bool {
    let r = s.skip(sign_len(s));
    ||| eq_ignore_case(r, seq!['i', 'n', 'f'])
    ||| eq_ignore_case(r, seq!['i', 'n', 'f', 'i', 'n', 'i', 't', 'y'])
    ||| eq_ignore_case(r, seq!['n', 'a', 'n'])
    ||| match first_exp_mark(r, 0) {
        None => is_mantissa(r),
        Some(p) => is_mantissa(r.take(p)) && is_exponent(r.skip(p + 1)),
    }
}

fn eq_ignore_case_at(v: &[char], from: usize, w: &[char]) -> (b: bool)
    requires
        from <= v.len(),
    ensures
        b == eq_ignore_case(v@.skip(from as int), w@),
{
    if v.len() - from != w.len() {
        return false;
    }
    let mut i: usize = 0;
    while i < w.len()
        invariant
            from <= v.len(),
            v.len() - from == w.len(),
            i <= w.len(),
            forall|k: int| 0 <= k < i ==> lower_ascii(v@[from + k]) == w@[k],
        decreases w.len() - i,
    {
        let c = v[from + i];
        let l = if 'A' <= c && c <= 'Z' { ((c as u8) + 32) as char } else { c };
        if l != w[i] {
            assert(v@.skip(from as int)[i as int] == c);
            return false;
        }
        i += 1;
    }
    assert forall|k: int| 0 <= k < v@.skip(from as int).len() implies lower_ascii(
        #[trigger] v@.skip(from as int)[k],
    ) == w@[k] by {
        assert(v@.skip(from as int)[k] == v@[from + k]);
    }
    true
}

proof fn lemma_first_dot(s: Seq<char>, from: int)
    ensures
        first_dot(s, from) matches Some(p) ==> 0 <= from <= p < s.len(),
    decreases s.len() - from,
{
    if 0 <= from < s.len() && s[from] != '.' {
        lemma_first_dot(s, from + 1);
    }
}

proof fn lemma_first_exp_mark(s: Seq<char>, from: int)
    ensures
        first_exp_mark(s, from) matches Some(p) ==> 0 <= from <= p < s.len(),
    decreases s.len() - from,
{
    if 0 <= from < s.len() && !(s[from] == 'e' || s[from] == 'E') {
        lemma_first_exp_mark(s, from + 1);
    }
}

fn find_where(v: &[char], from: usize, to: usize, exp: bool) -> (r: Option<usize>)
    requires
        from <= to <= v.len(),
    ensures
        exp ==> match first_exp_mark(v@.subrange(from as int, to as int), 0) {
            Some(p) => r == Some((from + p) as usize) && 0 <= p < to - from,
            None => r is None,
        },
        !exp ==> match first_dot(v@.subrange(from as int, to as int), 0) {
            Some(p) => r == Some((from + p) as usize) && 0 <= p < to - from,
            None => r is None,
        },
        r matches Some(q) ==> from <= q < to,
{
    let ghost s = v@.subrange(from as int, to as int);
    proof {
        lemma_first_dot(s, 0);
        lemma_first_exp_mark(s, 0);
    }
    let mut i = from;
    while i < to
        invariant
            from <= i <= to <= v.len(),
            s == v@.subrange(from as int, to as int),
            exp ==> first_exp_mark(s, (i - from) as int) == first_exp_mark(s, 0),
            !exp ==> first_dot(s, (i - from) as int) == first_dot(s, 0),
        decreases to - i,
    {
        let c = v[i];
        assert(s[i - from] == c);
        if exp && (c == 'e' || c == 'E') {
            return Some(i);
        }
        if !exp && c == '.' {
            return Some(i);
        }
        i += 1;
    }
    None
}

fn digits_between(v: &[char], from: usize, to: usize) -> (b: bool)
    requires
        from <= to <= v.len(),
    ensures
        b == all_digits(v@.subrange(from as int, to as int)),
{
    let mut i = from;
    while i < to
        invariant
            from <= i <= to <= v.len(),
            forall|k: int| from <= k < i ==> is_digit(#[trigger] v@[k]),
        decreases to - i,
    {
        if !('0' <= v[i] && v[i] <= '9') {
            assert(v@.subrange(from as int, to as int)[i - from] == v@[i as int]);
            return false;
        }
        i += 1;
    }
    assert forall|k: int| 0 <= k < v@.subrange(from as int, to as int).len() implies is_digit(
        #[trigger] v@.subrange(from as int, to as int)[k],
    ) by {
        assert(v@.subrange(from as int, to as int)[k] == v@[from + k]);
    }
    true
}

fn mantissa_between(v: &[char], from: usize, to: usize) -> (b: bool)
    requires
        from <= to <= v.len(),
    ensures
        b == is_mantissa(v@.subrange(from as int, to as int)),
{
    let ghost m = v@.subrange(from as int, to as int);
    match find_where(v, from, to, false) {
        None => to > from && digits_between(v, from, to),
        Some(p) => {
            proof {
                assert(m.take(p - from) =~= v@.subrange(from as int, p as int));
                assert(m.skip(p - from + 1) =~= v@.subrange(p + 1, to as int));
            }
            to - from > 1 && digits_between(v, from, p) && digits_between(v, p + 1, to)
        },
    }
}

fn exponent_between(v: &[char], from: usize, to: usize) -> (b: bool)
    requires
        from <= to <= v.len(),
    ensures
        b == is_exponent(v@.subrange(from as int, to as int)),
{
    let ghost x = v@.subrange(from as int, to as int);
    let sign: usize = if from < to && (v[from] == '+' || v[from] == '-') { 1 } else { 0 };
    assert(x.skip(sign as int) =~= v@.subrange(from + sign, to as int));
    to - from > sign && digits_between(v, from + sign, to)
}

/// Whether `v` is accepted by `str::parse::<f64>`.
pub fn parses_as_float(v: &[char]) -> (b: bool)
    ensures
        b == is_float_literal(v@),
{
    let n = v.len();
    let sign: usize = if n > 0 && (v[0] == '+' || v[0] == '-') { 1 } else { 0 };
    let ghost r = v@.skip(sign as int);
    if eq_ignore_case_at(v, sign, &['i', 'n', 'f']) || eq_ignore_case_at(
        v,
        sign,
        &['i', 'n', 'f', 'i', 'n', 'i', 't', 'y'],
    ) || eq_ignore_case_at(v, sign, &['n', 'a', 'n']) {
        return true;
    }
    assert(r =~= v@.subrange(sign as int, n as int));
    match find_where(v, sign, n, true) {
        None => mantissa_between(v, sign, n),
        Some(p) => {
            proof {
                assert(r.take(p - sign) =~= v@.subrange(sign as int, p as int));
                assert(r.skip(p - sign + 1) =~= v@.subrange(p + 1, n as int));
            }
            mantissa_between(v, sign, p) && exponent_between(v, p + 1, n)
        },
    }
}

} // verus!

verus! {

/// `s` without leading `c`s.
pub open spec fn trim_start_char(s: Seq<char>, c: char) -> Seq<char>
    decreases s.len(),
{
    if s.len() > 0 && s[0] == c {
        trim_start_char(s.drop_first(), c)
    } else {
        s
    }
}

/// `s` without trailing `c`s.
pub open spec fn trim_end_char(s: Seq<char>, c: char) -> Seq<char>
    decreases s.len(),
{
    if s.len() > 0 && s.last() == c {
        trim_end_char(s.drop_last(), c)
    } else {
        s
    }
}

/// `str::trim_matches(c)`: `s` without leading and trailing `c`s.
pub open spec fn trim_matches_char(s: Seq<char>, c: char) -> Seq<char> {
    trim_end_char(trim_start_char(s, c), c)
}

/// The part of `s` before its first comma (all of it without a comma).
pub open spec fn before_comma(s: Seq<char>) -> Seq<char>
    decreases s.len(),
{
    if s.len() == 0 {
        s
    } else if s[0] == ',' {
        Seq::empty()
    } else {
        seq![s[0]] + before_comma(s.drop_first())
    }
}

/// The first family of a CSS font list, unquoted: the text before the
/// first comma, trimmed, without surrounding `"` then `'` characters.
pub open spec fn css_font_name(font: Seq<char>) -> Seq<char> {
    trim_matches_char(trim_matches_char(trim_seq(before_comma(font)), '"'), '\'')
}

fn trim_matches_vec(v: &[char], c: char) -> (r: Vec<char>)
    ensures
        r@ == trim_matches_char(v@, c),
{
    let mut a: usize = 0;
    assert(v@.skip(0) =~= v@);
    while a < v.len() && v[a] == c
        invariant
            a <= v.len(),
            trim_start_char(v@, c) == trim_start_char(v@.skip(a as int), c),
        decreases v.len() - a,
    {
        assert(v@.skip(a as int).drop_first() =~= v@.skip(a + 1));
        a += 1;
    }
    let ghost s1 = v@.skip(a as int);
    assert(trim_start_char(s1, c) == s1);
    let mut b: usize = v.len();
    while b > a && v[b - 1] == c
        invariant
            a <= b <= v.len(),
            s1 == v@.skip(a as int),
            trim_end_char(s1, c) == trim_end_char(v@.subrange(a as int, b as int), c),
        decreases b,
    {
        assert(v@.subrange(a as int, b as int).drop_last() =~= v@.subrange(a as int, b - 1));
        b -= 1;
    }
    assert(v@.skip(a as int) =~= v@.subrange(a as int, v.len() as int));
    slice_vec(v, a, b)
}

fn before_comma_len(v: &[char]) -> (k: usize)
    ensures
        k <= v.len(),
        v@.take(k as int) == before_comma(v@),
{
    let mut k: usize = 0;
    assert(v@.skip(0) =~= v@);
    assert(v@.take(0) =~= Seq::<char>::empty());
    while k < v.len() && v[k] != ','
        invariant
            k <= v.len(),
            forall|m: int| 0 <= m < k ==> v@[m] != ',',
            before_comma(v@) == v@.take(k as int) + before_comma(v@.skip(k as int)),
        decreases v.len() - k,
    {
        let ghost t = v@.skip(k as int);
        assert(t.drop_first() =~= v@.skip(k + 1));
        assert(v@.take(k + 1) =~= v@.take(k as int) + seq![t[0]]);
        k += 1;
    }
    assert(before_comma(v@.skip(k as int)) =~= Seq::<char>::empty());
    k
}

/// The first family of a CSS font list, unquoted.
pub fn font_name(font: &str) -> (r: String)
    ensures
        r@ == css_font_name(font@),
{
    let v = str_chars(font);
    let k = before_comma_len(&v);
    let first = slice_vec(&v, 0, k);
    let t = trim_chars(&first);
    let q = trim_matches_vec(&t, '"');
    let q2 = trim_matches_vec(&q, '\'');
    chars_to_string(&q2)
}

/// `str::trim_end_matches(c)`: the string without its trailing `c`s.
pub fn trim_end_char_str(s: &str, c: char) -> (r: String)
    ensures
        r@ == trim_end_char(s@, c),
{
    let v = str_chars(s);
    let mut b: usize = v.len();
    assert(v@.take(b as int) =~= v@);
    while b > 0 && v[b - 1] == c
        invariant
            b <= v.len(),
            v@ == s@,
            trim_end_char(s@, c) == trim_end_char(v@.take(b as int), c),
        decreases b,
    {
        assert(v@.take(b as int).drop_last() =~= v@.take(b - 1));
        b -= 1;
    }
    let t = slice_vec(&v, 0, b);
    assert(t@ =~= v@.take(b as int));
    chars_to_string(&t)
}

} // verus!
