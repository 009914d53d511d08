//! Translation of key names (`ctrl-c`, `shift-up`, `f5`, ...) into the bytes
//! a terminal sends for them.
use vstd::prelude::*;
use vstd::utf8::encode_utf8;
use crate::text::{decimal, digit_char, str_chars, trim_chars, trim_seq};

verus! {

/// Whether two character sequences are equal.
pub fn eq_chars(a: &[char], b: &[char]) -> (r: bool)
    ensures
        r == (a@ == b@),
{
    if a.len() != b.len() {
        return false;
    }
    let mut i: usize = 0;
    while i < a.len()
        invariant
            i <= a.len() == b.len(),
            forall|k: int| 0 <= k < i ==> a@[k] == b@[k],
        decreases a.len() - i,
    {
        if a[i] != b[i] {
            return false;
        }
        i += 1;
    }
    assert(a@ =~= b@);
    true
}

/// Bytes of the key names known on their own.
pub open spec fn named_key_bytes(k: Seq<char>) -> Option<Seq<u8>> {
    if k == seq!['e', 'n', 't', 'e', 'r'] || k == seq!['r', 'e', 't', 'u', 'r', 'n'] || k == seq!['c', 'r'] {
        Some(seq![0x0du8])
    } else if k == seq!['t', 'a', 'b'] {
        Some(seq![0x09u8])
    } else if k == seq!['e', 's', 'c', 'a', 'p', 'e'] || k == seq!['e', 's', 'c'] {
        Some(seq![0x1bu8])
    } else if k == seq!['b', 'a', 'c', 'k', 's', 'p', 'a', 'c', 'e'] || k == seq!['b', 's'] {
        Some(seq![0x7fu8])
    } else if k == seq!['d', 'e', 'l', 'e', 't', 'e'] || k == seq!['d', 'e', 'l'] {
        Some(seq![0x1bu8, 0x5bu8, 0x33u8, 0x7eu8])
    } else if k == seq!['s', 'p', 'a', 'c', 'e'] {
        Some(seq![0x20u8])
    } else if k == seq!['u', 'p'] {
        Some(seq![0x1bu8, 0x5bu8, 0x41u8])
    } else if k == seq!['d', 'o', 'w', 'n'] {
        Some(seq![0x1bu8, 0x5bu8, 0x42u8])
    } else if k == seq!['r', 'i', 'g', 'h', 't'] {
        Some(seq![0x1bu8, 0x5bu8, 0x43u8])
    } else if k == seq!['l', 'e', 'f', 't'] {
        Some(seq![0x1bu8, 0x5bu8, 0x44u8])
    } else if k == seq!['h', 'o', 'm', 'e'] {
        Some(seq![0x1bu8, 0x5bu8, 0x48u8])
    } else if k == seq!['e', 'n', 'd'] {
        Some(seq![0x1bu8, 0x5bu8, 0x46u8])
    } else if k == seq!['p', 'a', 'g', 'e', 'u', 'p'] || k == seq!['p', 'a', 'g', 'e', '-', 'u', 'p'] || k == seq!['p', 'a', 'g', 'e', '_', 'u', 'p'] {
        Some(seq![0x1bu8, 0x5bu8, 0x35u8, 0x7eu8])
    } else if k == seq!['p', 'a', 'g', 'e', 'd', 'o', 'w', 'n'] || k == seq!['p', 'a', 'g', 'e', '-', 'd', 'o', 'w', 'n'] || k == seq!['p', 'a', 'g', 'e', '_', 'd', 'o', 'w', 'n'] {
        Some(seq![0x1bu8, 0x5bu8, 0x36u8, 0x7eu8])
    } else if k == seq!['i', 'n', 's', 'e', 'r', 't'] {
        Some(seq![0x1bu8, 0x5bu8, 0x32u8, 0x7eu8])
    } else if k == seq!['f', '1'] {
        Some(seq![0x1bu8, 0x4fu8, 0x50u8])
    } else if k == seq!['f', '2'] {
        Some(seq![0x1bu8, 0x4fu8, 0x51u8])
    } else if k == seq!['f', '3'] {
        Some(seq![0x1bu8, 0x4fu8, 0x52u8])
    } else if k == seq!['f', '4'] {
        Some(seq![0x1bu8, 0x4fu8, 0x53u8])
    } else if k == seq!['f', '5'] {
        Some(seq![0x1bu8, 0x5bu8, 0x31u8, 0x35u8, 0x7eu8])
    } else if k == seq!['f', '6'] {
        Some(seq![0x1bu8, 0x5bu8, 0x31u8, 0x37u8, 0x7eu8])
    } else if k == seq!['f', '7'] {
        Some(seq![0x1bu8, 0x5bu8, 0x31u8, 0x38u8, 0x7eu8])
    } else if k == seq!['f', '8'] {
        Some(seq![0x1bu8, 0x5bu8, 0x31u8, 0x39u8, 0x7eu8])
    } else if k == seq!['f', '9'] {
        Some(seq![0x1bu8, 0x5bu8, 0x32u8, 0x30u8, 0x7eu8])
    } else if k == seq!['f', '1', '0'] {
        Some(seq![0x1bu8, 0x5bu8, 0x32u8, 0x31u8, 0x7eu8])
    } else if k == seq!['f', '1', '1'] {
        Some(seq![0x1bu8, 0x5bu8, 0x32u8, 0x33u8, 0x7eu8])
    } else if k == seq!['f', '1', '2'] {
        Some(seq![0x1bu8, 0x5bu8, 0x32u8, 0x34u8, 0x7eu8])
    } else {
        None
    }
}

/// Escape sequences of the keys that take a modifier parameter.
pub open spec fn special_key_csi(k: Seq<char>) -> Option<Seq<u8>> {
    if k == seq!['u', 'p'] {
        Some(seq![0x1bu8, 0x5bu8, 0x41u8])
    } else if k == seq!['d', 'o', 'w', 'n'] {
        Some(seq![0x1bu8, 0x5bu8, 0x42u8])
    } else if k == seq!['r', 'i', 'g', 'h', 't'] {
        Some(seq![0x1bu8, 0x5bu8, 0x43u8])
    } else if k == seq!['l', 'e', 'f', 't'] {
        Some(seq![0x1bu8, 0x5bu8, 0x44u8])
    } else if k == seq!['h', 'o', 'm', 'e'] {
        Some(seq![0x1bu8, 0x5bu8, 0x48u8])
    } else if k == seq!['e', 'n', 'd'] {
        Some(seq![0x1bu8, 0x5bu8, 0x46u8])
    } else if k == seq!['i', 'n', 's', 'e', 'r', 't'] {
        Some(seq![0x1bu8, 0x5bu8, 0x32u8, 0x7eu8])
    } else if k == seq!['d', 'e', 'l', 'e', 't', 'e'] || k == seq!['d', 'e', 'l'] {
        Some(seq![0x1bu8, 0x5bu8, 0x33u8, 0x7eu8])
    } else if k == seq!['p', 'a', 'g', 'e', 'u', 'p'] || k == seq!['p', 'a', 'g', 'e', '-', 'u', 'p'] || k == seq!['p', 'a', 'g', 'e', '_', 'u', 'p'] {
        Some(seq![0x1bu8, 0x5bu8, 0x35u8, 0x7eu8])
    } else if k == seq!['p', 'a', 'g', 'e', 'd', 'o', 'w', 'n'] || k == seq!['p', 'a', 'g', 'e', '-', 'd', 'o', 'w', 'n'] || k == seq!['p', 'a', 'g', 'e', '_', 'd', 'o', 'w', 'n'] {
        Some(seq![0x1bu8, 0x5bu8, 0x36u8, 0x7eu8])
    } else if k == seq!['f', '1'] {
        Some(seq![0x1bu8, 0x4fu8, 0x50u8])
    } else if k == seq!['f', '2'] {
        Some(seq![0x1bu8, 0x4fu8, 0x51u8])
    } else if k == seq!['f', '3'] {
        Some(seq![0x1bu8, 0x4fu8, 0x52u8])
    } else if k == seq!['f', '4'] {
        Some(seq![0x1bu8, 0x4fu8, 0x53u8])
    } else if k == seq!['f', '5'] {
        Some(seq![0x1bu8, 0x5bu8, 0x31u8, 0x35u8, 0x7eu8])
    } else if k == seq!['f', '6'] {
        Some(seq![0x1bu8, 0x5bu8, 0x31u8, 0x37u8, 0x7eu8])
    } else if k == seq!['f', '7'] {
        Some(seq![0x1bu8, 0x5bu8, 0x31u8, 0x38u8, 0x7eu8])
    } else if k == seq!['f', '8'] {
        Some(seq![0x1bu8, 0x5bu8, 0x31u8, 0x39u8, 0x7eu8])
    } else if k == seq!['f', '9'] {
        Some(seq![0x1bu8, 0x5bu8, 0x32u8, 0x30u8, 0x7eu8])
    } else if k == seq!['f', '1', '0'] {
        Some(seq![0x1bu8, 0x5bu8, 0x32u8, 0x31u8, 0x7eu8])
    } else if k == seq!['f', '1', '1'] {
        Some(seq![0x1bu8, 0x5bu8, 0x32u8, 0x33u8, 0x7eu8])
    } else if k == seq!['f', '1', '2'] {
        Some(seq![0x1bu8, 0x5bu8, 0x32u8, 0x34u8, 0x7eu8])
    } else if k == seq!['e', 'n', 't', 'e', 'r'] || k == seq!['r', 'e', 't', 'u', 'r', 'n'] || k == seq!['c', 'r'] {
        Some(seq![0x1bu8, 0x5bu8, 0x31u8, 0x33u8, 0x75u8])
    } else if k == seq!['t', 'a', 'b'] {
        Some(seq![0x1bu8, 0x5bu8, 0x39u8, 0x75u8])
    } else if k == seq!['e', 's', 'c', 'a', 'p', 'e'] || k == seq!['e', 's', 'c'] {
        Some(seq![0x1bu8, 0x5bu8, 0x32u8, 0x37u8, 0x75u8])
    } else if k == seq!['b', 'a', 'c', 'k', 's', 'p', 'a', 'c', 'e'] || k == seq!['b', 's'] {
        Some(seq![0x1bu8, 0x5bu8, 0x31u8, 0x32u8, 0x37u8, 0x75u8])
    } else if k == seq!['s', 'p', 'a', 'c', 'e'] {
        Some(seq![0x1bu8, 0x5bu8, 0x33u8, 0x32u8, 0x75u8])
    } else {
        None
    }
}

/// Looks up a key name known on its own.
fn named_key(k: &[char]) -> (r: Option<Vec<u8>>)
    ensures
        match r { Some(v) => named_key_bytes(k@) == Some(v@), None => named_key_bytes(k@) is None },
{
    if eq_chars(k, &['e', 'n', 't', 'e', 'r']) || eq_chars(k, &['r', 'e', 't', 'u', 'r', 'n']) || eq_chars(k, &['c', 'r']) {
        let v: Vec<u8> = vec![0x0du8];
        assert(v@ =~= seq![0x0du8]);
        Some(v)
    } else if eq_chars(k, &['t', 'a', 'b']) {
        let v: Vec<u8> = vec![0x09u8];
        assert(v@ =~= seq![0x09u8]);
        Some(v)
    } else if eq_chars(k, &['e', 's', 'c', 'a', 'p', 'e']) || eq_chars(k, &['e', 's', 'c']) {
        let v: Vec<u8> = vec![0x1bu8];
        assert(v@ =~= seq![0x1bu8]);
        Some(v)
    } else if eq_chars(k, &['b', 'a', 'c', 'k', 's', 'p', 'a', 'c', 'e']) || eq_chars(k, &['b', 's']) {
        let v: Vec<u8> = vec![0x7fu8];
        assert(v@ =~= seq![0x7fu8]);
        Some(v)
    } else if eq_chars(k, &['d', 'e', 'l', 'e', 't', 'e']) || eq_chars(k, &['d', 'e', 'l']) {
        let v: Vec<u8> = vec![0x1bu8, 0x5bu8, 0x33u8, 0x7eu8];
        assert(v@ =~= seq![0x1bu8, 0x5bu8, 0x33u8, 0x7eu8]);
        Some(v)
    } else if eq_chars(k, &['s', 'p', 'a', 'c', 'e']) {
        let v: Vec<u8> = vec![0x20u8];
        assert(v@ =~= seq![0x20u8]);
        Some(v)
    } else if eq_chars(k, &['u', 'p']) {
        let v: Vec<u8> = vec![0x1bu8, 0x5bu8, 0x41u8];
        assert(v@ =~= seq![0x1bu8, 0x5bu8, 0x41u8]);
        Some(v)
    } else if eq_chars(k, &['d', 'o', 'w', 'n']) {
        let v: Vec<u8> = vec![0x1bu8, 0x5bu8, 0x42u8];
        assert(v@ =~= seq![0x1bu8, 0x5bu8, 0x42u8]);
        Some(v)
    } else if eq_chars(k, &['r', 'i', 'g', 'h', 't']) {
        let v: Vec<u8> = vec![0x1bu8, 0x5bu8, 0x43u8];
        assert(v@ =~= seq![0x1bu8, 0x5bu8, 0x43u8]);
        Some(v)
    } else if eq_chars(k, &['l', 'e', 'f', 't']) {
        let v: Vec<u8> = vec![0x1bu8, 0x5bu8, 0x44u8];
        assert(v@ =~= seq![0x1bu8, 0x5bu8, 0x44u8]);
        Some(v)
    } else if eq_chars(k, &['h', 'o', 'm', 'e']) {
        let v: Vec<u8> = vec![0x1bu8, 0x5bu8, 0x48u8];
        assert(v@ =~= seq![0x1bu8, 0x5bu8, 0x48u8]);
        Some(v)
    } else if eq_chars(k, &['e', 'n', 'd']) {
        let v: Vec<u8> = vec![0x1bu8, 0x5bu8, 0x46u8];
        assert(v@ =~= seq![0x1bu8, 0x5bu8, 0x46u8]);
        Some(v)
    } else if eq_chars(k, &['p', 'a', 'g', 'e', 'u', 'p']) || eq_chars(k, &['p', 'a', 'g', 'e', '-', 'u', 'p']) || eq_chars(k, &['p', 'a', 'g', 'e', '_', 'u', 'p']) {
        let v: Vec<u8> = vec![0x1bu8, 0x5bu8, 0x35u8, 0x7eu8];
        assert(v@ =~= seq![0x1bu8, 0x5bu8, 0x35u8, 0x7eu8]);
        Some(v)
    } else if eq_chars(k, &['p', 'a', 'g', 'e', 'd', 'o', 'w', 'n']) || eq_chars(k, &['p', 'a', 'g', 'e', '-', 'd', 'o', 'w', 'n']) || eq_chars(k, &['p', 'a', 'g', 'e', '_', 'd', 'o', 'w', 'n']) {
        let v: Vec<u8> = vec![0x1bu8, 0x5bu8, 0x36u8, 0x7eu8];
        assert(v@ =~= seq![0x1bu8, 0x5bu8, 0x36u8, 0x7eu8]);
        Some(v)
    } else if eq_chars(k, &['i', 'n', 's', 'e', 'r', 't']) {
        let v: Vec<u8> = vec![0x1bu8, 0x5bu8, 0x32u8, 0x7eu8];
        assert(v@ =~= seq![0x1bu8, 0x5bu8, 0x32u8, 0x7eu8]);
        Some(v)
    } else if eq_chars(k, &['f', '1']) {
        let v: Vec<u8> = vec![0x1bu8, 0x4fu8, 0x50u8];
        assert(v@ =~= seq![0x1bu8, 0x4fu8, 0x50u8]);
        Some(v)
    } else if eq_chars(k, &['f', '2']) {
        let v: Vec<u8> = vec![0x1bu8, 0x4fu8, 0x51u8];
        assert(v@ =~= seq![0x1bu8, 0x4fu8, 0x51u8]);
        Some(v)
    } else if eq_chars(k, &['f', '3']) {
        let v: Vec<u8> = vec![0x1bu8, 0x4fu8, 0x52u8];
        assert(v@ =~= seq![0x1bu8, 0x4fu8, 0x52u8]);
        Some(v)
    } else if eq_chars(k, &['f', '4']) {
        let v: Vec<u8> = vec![0x1bu8, 0x4fu8, 0x53u8];
        assert(v@ =~= seq![0x1bu8, 0x4fu8, 0x53u8]);
        Some(v)
    } else if eq_chars(k, &['f', '5']) {
        let v: Vec<u8> = vec![0x1bu8, 0x5bu8, 0x31u8, 0x35u8, 0x7eu8];
        assert(v@ =~= seq![0x1bu8, 0x5bu8, 0x31u8, 0x35u8, 0x7eu8]);
        Some(v)
    } else if eq_chars(k, &['f', '6']) {
        let v: Vec<u8> = vec![0x1bu8, 0x5bu8, 0x31u8, 0x37u8, 0x7eu8];
        assert(v@ =~= seq![0x1bu8, 0x5bu8, 0x31u8, 0x37u8, 0x7eu8]);
        Some(v)
    } else if eq_chars(k, &['f', '7']) {
        let v: Vec<u8> = vec![0x1bu8, 0x5bu8, 0x31u8, 0x38u8, 0x7eu8];
        assert(v@ =~= seq![0x1bu8, 0x5bu8, 0x31u8, 0x38u8, 0x7eu8]);
        Some(v)
    } else if eq_chars(k, &['f', '8']) {
        let v: Vec<u8> = vec![0x1bu8, 0x5bu8, 0x31u8, 0x39u8, 0x7eu8];
        assert(v@ =~= seq![0x1bu8, 0x5bu8, 0x31u8, 0x39u8, 0x7eu8]);
        Some(v)
    } else if eq_chars(k, &['f', '9']) {
        let v: Vec<u8> = vec![0x1bu8, 0x5bu8, 0x32u8, 0x30u8, 0x7eu8];
        assert(v@ =~= seq![0x1bu8, 0x5bu8, 0x32u8, 0x30u8, 0x7eu8]);
        Some(v)
    } else if eq_chars(k, &['f', '1', '0']) {
        let v: Vec<u8> = vec![0x1bu8, 0x5bu8, 0x32u8, 0x31u8, 0x7eu8];
        assert(v@ =~= seq![0x1bu8, 0x5bu8, 0x32u8, 0x31u8, 0x7eu8]);
        Some(v)
    } else if eq_chars(k, &['f', '1', '1']) {
        let v: Vec<u8> = vec![0x1bu8, 0x5bu8, 0x32u8, 0x33u8, 0x7eu8];
        assert(v@ =~= seq![0x1bu8, 0x5bu8, 0x32u8, 0x33u8, 0x7eu8]);
        Some(v)
    } else if eq_chars(k, &['f', '1', '2']) {
        let v: Vec<u8> = vec![0x1bu8, 0x5bu8, 0x32u8, 0x34u8, 0x7eu8];
        assert(v@ =~= seq![0x1bu8, 0x5bu8, 0x32u8, 0x34u8, 0x7eu8]);
        Some(v)
    } else {
        None
    }
}

/// Looks up the escape sequence of a key that takes a modifier parameter.
fn special_csi(k: &[char]) -> (r: Option<Vec<u8>>)
    ensures
        match r { Some(v) => special_key_csi(k@) == Some(v@), None => special_key_csi(k@) is None },
{
    if eq_chars(k, &['u', 'p']) {
        let v: Vec<u8> = vec![0x1bu8, 0x5bu8, 0x41u8];
        assert(v@ =~= seq![0x1bu8, 0x5bu8, 0x41u8]);
        Some(v)
    } else if eq_chars(k, &['d', 'o', 'w', 'n']) {
        let v: Vec<u8> = vec![0x1bu8, 0x5bu8, 0x42u8];
        assert(v@ =~= seq![0x1bu8, 0x5bu8, 0x42u8]);
        Some(v)
    } else if eq_chars(k, &['r', 'i', 'g', 'h', 't']) {
        let v: Vec<u8> = vec![0x1bu8, 0x5bu8, 0x43u8];
        assert(v@ =~= seq![0x1bu8, 0x5bu8, 0x43u8]);
        Some(v)
    } else if eq_chars(k, &['l', 'e', 'f', 't']) {
        let v: Vec<u8> = vec![0x1bu8, 0x5bu8, 0x44u8];
        assert(v@ =~= seq![0x1bu8, 0x5bu8, 0x44u8]);
        Some(v)
    } else if eq_chars(k, &['h', 'o', 'm', 'e']) {
        let v: Vec<u8> = vec![0x1bu8, 0x5bu8, 0x48u8];
        assert(v@ =~= seq![0x1bu8, 0x5bu8, 0x48u8]);
        Some(v)
    } else if eq_chars(k, &['e', 'n', 'd']) {
        let v: Vec<u8> = vec![0x1bu8, 0x5bu8, 0x46u8];
        assert(v@ =~= seq![0x1bu8, 0x5bu8, 0x46u8]);
        Some(v)
    } else if eq_chars(k, &['i', 'n', 's', 'e', 'r', 't']) {
        let v: Vec<u8> = vec![0x1bu8, 0x5bu8, 0x32u8, 0x7eu8];
        assert(v@ =~= seq![0x1bu8, 0x5bu8, 0x32u8, 0x7eu8]);
        Some(v)
    } else if eq_chars(k, &['d', 'e', 'l', 'e', 't', 'e']) || eq_chars(k, &['d', 'e', 'l']) {
        let v: Vec<u8> = vec![0x1bu8, 0x5bu8, 0x33u8, 0x7eu8];
        assert(v@ =~= seq![0x1bu8, 0x5bu8, 0x33u8, 0x7eu8]);
        Some(v)
    } else if eq_chars(k, &['p', 'a', 'g', 'e', 'u', 'p']) || eq_chars(k, &['p', 'a', 'g', 'e', '-', 'u', 'p']) || eq_chars(k, &['p', 'a', 'g', 'e', '_', 'u', 'p']) {
        let v: Vec<u8> = vec![0x1bu8, 0x5bu8, 0x35u8, 0x7eu8];
        assert(v@ =~= seq![0x1bu8, 0x5bu8, 0x35u8, 0x7eu8]);
        Some(v)
    } else if eq_chars(k, &['p', 'a', 'g', 'e', 'd', 'o', 'w', 'n']) || eq_chars(k, &['p', 'a', 'g', 'e', '-', 'd', 'o', 'w', 'n']) || eq_chars(k, &['p', 'a', 'g', 'e', '_', 'd', 'o', 'w', 'n']) {
        let v: Vec<u8> = vec![0x1bu8, 0x5bu8, 0x36u8, 0x7eu8];
        assert(v@ =~= seq![0x1bu8, 0x5bu8, 0x36u8, 0x7eu8]);
        Some(v)
    } else if eq_chars(k, &['f', '1']) {
        let v: Vec<u8> = vec![0x1bu8, 0x4fu8, 0x50u8];
        assert(v@ =~= seq![0x1bu8, 0x4fu8, 0x50u8]);
        Some(v)
    } else if eq_chars(k, &['f', '2']) {
        let v: Vec<u8> = vec![0x1bu8, 0x4fu8, 0x51u8];
        assert(v@ =~= seq![0x1bu8, 0x4fu8, 0x51u8]);
        Some(v)
    } else if eq_chars(k, &['f', '3']) {
        let v: Vec<u8> = vec![0x1bu8, 0x4fu8, 0x52u8];
        assert(v@ =~= seq![0x1bu8, 0x4fu8, 0x52u8]);
        Some(v)
    } else if eq_chars(k, &['f', '4']) {
        let v: Vec<u8> = vec![0x1bu8, 0x4fu8, 0x53u8];
        assert(v@ =~= seq![0x1bu8, 0x4fu8, 0x53u8]);
        Some(v)
    } else if eq_chars(k, &['f', '5']) {
        let v: Vec<u8> = vec![0x1bu8, 0x5bu8, 0x31u8, 0x35u8, 0x7eu8];
        assert(v@ =~= seq![0x1bu8, 0x5bu8, 0x31u8, 0x35u8, 0x7eu8]);
        Some(v)
    } else if eq_chars(k, &['f', '6']) {
        let v: Vec<u8> = vec![0x1bu8, 0x5bu8, 0x31u8, 0x37u8, 0x7eu8];
        assert(v@ =~= seq![0x1bu8, 0x5bu8, 0x31u8, 0x37u8, 0x7eu8]);
        Some(v)
    } else if eq_chars(k, &['f', '7']) {
        let v: Vec<u8> = vec![0x1bu8, 0x5bu8, 0x31u8, 0x38u8, 0x7eu8];
        assert(v@ =~= seq![0x1bu8, 0x5bu8, 0x31u8, 0x38u8, 0x7eu8]);
        Some(v)
    } else if eq_chars(k, &['f', '8']) {
        let v: Vec<u8> = vec![0x1bu8, 0x5bu8, 0x31u8, 0x39u8, 0x7eu8];
        assert(v@ =~= seq![0x1bu8, 0x5bu8, 0x31u8, 0x39u8, 0x7eu8]);
        Some(v)
    } else if eq_chars(k, &['f', '9']) {
        let v: Vec<u8> = vec![0x1bu8, 0x5bu8, 0x32u8, 0x30u8, 0x7eu8];
        assert(v@ =~= seq![0x1bu8, 0x5bu8, 0x32u8, 0x30u8, 0x7eu8]);
        Some(v)
    } else if eq_chars(k, &['f', '1', '0']) {
        let v: Vec<u8> = vec![0x1bu8, 0x5bu8, 0x32u8, 0x31u8, 0x7eu8];
        assert(v@ =~= seq![0x1bu8, 0x5bu8, 0x32u8, 0x31u8, 0x7eu8]);
        Some(v)
    } else if eq_chars(k, &['f', '1', '1']) {
        let v: Vec<u8> = vec![0x1bu8, 0x5bu8, 0x32u8, 0x33u8, 0x7eu8];
        assert(v@ =~= seq![0x1bu8, 0x5bu8, 0x32u8, 0x33u8, 0x7eu8]);
        Some(v)
    } else if eq_chars(k, &['f', '1', '2']) {
        let v: Vec<u8> = vec![0x1bu8, 0x5bu8, 0x32u8, 0x34u8, 0x7eu8];
        assert(v@ =~= seq![0x1bu8, 0x5bu8, 0x32u8, 0x34u8, 0x7eu8]);
        Some(v)
    } else if eq_chars(k, &['e', 'n', 't', 'e', 'r']) || eq_chars(k, &['r', 'e', 't', 'u', 'r', 'n']) || eq_chars(k, &['c', 'r']) {
        let v: Vec<u8> = vec![0x1bu8, 0x5bu8, 0x31u8, 0x33u8, 0x75u8];
        assert(v@ =~= seq![0x1bu8, 0x5bu8, 0x31u8, 0x33u8, 0x75u8]);
        Some(v)
    } else if eq_chars(k, &['t', 'a', 'b']) {
        let v: Vec<u8> = vec![0x1bu8, 0x5bu8, 0x39u8, 0x75u8];
        assert(v@ =~= seq![0x1bu8, 0x5bu8, 0x39u8, 0x75u8]);
        Some(v)
    } else if eq_chars(k, &['e', 's', 'c', 'a', 'p', 'e']) || eq_chars(k, &['e', 's', 'c']) {
        let v: Vec<u8> = vec![0x1bu8, 0x5bu8, 0x32u8, 0x37u8, 0x75u8];
        assert(v@ =~= seq![0x1bu8, 0x5bu8, 0x32u8, 0x37u8, 0x75u8]);
        Some(v)
    } else if eq_chars(k, &['b', 'a', 'c', 'k', 's', 'p', 'a', 'c', 'e']) || eq_chars(k, &['b', 's']) {
        let v: Vec<u8> = vec![0x1bu8, 0x5bu8, 0x31u8, 0x32u8, 0x37u8, 0x75u8];
        assert(v@ =~= seq![0x1bu8, 0x5bu8, 0x31u8, 0x32u8, 0x37u8, 0x75u8]);
        Some(v)
    } else if eq_chars(k, &['s', 'p', 'a', 'c', 'e']) {
        let v: Vec<u8> = vec![0x1bu8, 0x5bu8, 0x33u8, 0x32u8, 0x75u8];
        assert(v@ =~= seq![0x1bu8, 0x5bu8, 0x33u8, 0x32u8, 0x75u8]);
        Some(v)
    } else {
        None
    }
}


/// The modifier keys named before a key.
#[derive(Clone, Copy, Debug, PartialEq, Eq, Structural)]
pub struct Modifiers {
    pub ctrl: bool,
    pub shift: bool,
    pub alt: bool,
}

/// Whether `s` begins with `p`.
pub open spec fn starts_with(s: Seq<char>, p: Seq<char>) -> bool {
    p.len() <= s.len() && s.take(p.len() as int) == p
}

/// The modifier prefixes, in the order they are tried, with the modifier
/// each one sets (0 ctrl, 1 shift, 2 alt).
pub open spec fn modifier_prefixes() -> Seq<(Seq<char>, nat)> {
    seq![
        (seq!['c', 't', 'r', 'l', '-'], 0nat),
        (seq!['c', '-'], 0nat),
        (seq!['s', 'h', 'i', 'f', 't', '-'], 1nat),
        (seq!['s', '-'], 1nat),
        (seq!['a', 'l', 't', '-'], 2nat),
        (seq!['m', 'e', 't', 'a', '-'], 2nat),
        (seq!['m', '-'], 2nat),
    ]
}

/// The first modifier prefix, in order, that `s` begins with.
pub open spec fn first_prefix(s: Seq<char>, from: int) -> Option<int>
    decreases 7 - from,
{
    if from < 0 || from >= 7 {
        None
    } else if starts_with(s, modifier_prefixes()[from].0) {
        Some(from)
    } else {
        first_prefix(s, from + 1)
    }
}

proof fn lemma_first_prefix(s: Seq<char>, from: int)
    ensures
        first_prefix(s, from) matches Some(k) ==> 0 <= from <= k < 7 && starts_with(
            s,
            modifier_prefixes()[k].0,
        ),
    decreases 7 - from,
{
    if 0 <= from < 7 && !starts_with(s, modifier_prefixes()[from].0) {
        lemma_first_prefix(s, from + 1);
    }
}

/// `m` with the modifier numbered `which` set.
pub open spec fn with_modifier(m: Modifiers, which: nat) -> Modifiers {
    if which == 0 {
        Modifiers { ctrl: true, ..m }
    } else if which == 1 {
        Modifiers { shift: true, ..m }
    } else {
        Modifiers { alt: true, ..m }
    }
}

/// Strips modifier prefixes off `s` as long as one matches; returns the
/// modifiers seen, the rest, and whether any prefix was stripped.
pub open spec fn strip_modifiers(s: Seq<char>, m: Modifiers, found: bool) -> (
    Modifiers,
    Seq<char>,
    bool,
)
    decreases s.len(),
{
    match first_prefix(s, 0) {
        Some(k) => {
            let p = modifier_prefixes()[k];
            if 0 <= k < 7 && 0 < p.0.len() <= s.len() {
                strip_modifiers(s.skip(p.0.len() as int), with_modifier(m, p.1), true)
            } else {
                (m, s, found)
            }
        },
        None => (m, s, found),
    }
}

/// No modifier set.
pub open spec fn no_modifiers() -> Modifiers {
    Modifiers { ctrl: false, shift: false, alt: false }
}

/// The modifiers and key of a `mod-...-key` name; `None` when no modifier
/// prefix is present or nothing follows the prefixes.
pub open spec fn spec_parse_modifiers(s: Seq<char>) -> Option<(Modifiers, Seq<char>)> {
    let (m, rest, found) = strip_modifiers(s, no_modifiers(), false);
    if found && rest.len() > 0 {
        Some((m, rest))
    } else {
        None
    }
}

/// Whether `s` has `p` at position `pos`.
fn starts_at(s: &[char], pos: usize, p: &[char]) -> (b: bool)
    requires
        pos <= s.len(),
    ensures
        b == starts_with(s@.skip(pos as int), p@),
{
    if p.len() > s.len() - pos {
        return false;
    }
    let mut i: usize = 0;
    while i < p.len()
        invariant
            pos <= s.len(),
            p.len() <= s.len() - pos,
            i <= p.len(),
            forall|k: int| 0 <= k < i ==> s@[pos + k] == p@[k],
        decreases p.len() - i,
    {
        if s[pos + i] != p[i] {
            assert(s@.skip(pos as int).take(p.len() as int)[i as int] != p@[i as int]);
            return false;
        }
        i += 1;
    }
    assert(s@.skip(pos as int).take(p.len() as int) =~= p@);
    true
}

fn prefix_at(s: &[char], pos: usize) -> (r: Option<(usize, u8)>)
    requires
        pos <= s.len(),
    ensures
        match first_prefix(s@.skip(pos as int), 0) {
            Some(k) => r matches Some((len, which)) && len == modifier_prefixes()[k].0.len()
                && which == modifier_prefixes()[k].1 && 0 <= k < 7 && 0 < len <= s.len() - pos,
            None => r is None,
        },
{
    let ghost t = s@.skip(pos as int);
    let ghost ps = modifier_prefixes();
    reveal_with_fuel(first_prefix, 8);
    proof {
        lemma_first_prefix(t, 0);
    }
    if starts_at(s, pos, &['c', 't', 'r', 'l', '-']) {
        Some((5, 0))
    } else if starts_at(s, pos, &['c', '-']) {
        Some((2, 0))
    } else if starts_at(s, pos, &['s', 'h', 'i', 'f', 't', '-']) {
        Some((6, 1))
    } else if starts_at(s, pos, &['s', '-']) {
        Some((2, 1))
    } else if starts_at(s, pos, &['a', 'l', 't', '-']) {
        Some((4, 2))
    } else if starts_at(s, pos, &['m', 'e', 't', 'a', '-']) {
        Some((5, 2))
    } else if starts_at(s, pos, &['m', '-']) {
        Some((2, 2))
    } else {
        None
    }
}

/// Splits `mod-...-key` into its modifiers and key; `None` without a
/// modifier prefix or without a key after the prefixes.
pub fn parse_modifiers(s: &[char]) -> (r: Option<(Modifiers, Vec<char>)>)
    ensures
        match spec_parse_modifiers(s@) {
            Some((m, k)) => r matches Some((m2, k2)) && m2 == m && k2@ == k,
            None => r is None,
        },
{
    let mut mods = Modifiers { ctrl: false, shift: false, alt: false };
    let mut pos: usize = 0;
    let mut found = false;
    assert(s@.skip(0) =~= s@);
    loop
        invariant
            pos <= s.len(),
            strip_modifiers(s@.skip(pos as int), mods, found) == strip_modifiers(
                s@,
                no_modifiers(),
                false,
            ),
        ensures
            pos <= s.len(),
            strip_modifiers(s@, no_modifiers(), false) == (mods, s@.skip(pos as int), found),
        decreases s.len() - pos,
    {
        let ghost t = s@.skip(pos as int);
        match prefix_at(s, pos) {
            Some((len, which)) => {
                proof {
                    assert(t.skip(len as int) =~= s@.skip(pos + len));
                }
                if which == 0 {
                    mods.ctrl = true;
                } else if which == 1 {
                    mods.shift = true;
                } else {
                    mods.alt = true;
                }
                pos = pos + len;
                found = true;
            },
            None => {
                break;
            },
        }
    }
    assert(s@.skip(0) =~= s@);
    if found && pos < s.len() {
        let mut rest: Vec<char> = Vec::new();
        let mut i = pos;
        while i < s.len()
            invariant
                pos <= i <= s.len(),
                rest@ == s@.subrange(pos as int, i as int),
            decreases s.len() - i,
        {
            rest.push(s[i]);
            assert(s@.subrange(pos as int, i + 1) =~= s@.subrange(pos as int, i as int).push(
                s@[i as int],
            ));
            i += 1;
        }
        assert(rest@ =~= s@.skip(pos as int));
        Some((mods, rest))
    } else {
        None
    }
}


/// The xterm modifier parameter: 1 plus shift=1, alt=2, ctrl=4.
pub open spec fn spec_modifier_param(m: Modifiers) -> u8 {
    (1 + (if m.shift { 1int } else { 0 }) + (if m.alt { 2int } else { 0 }) + (if m.ctrl {
        4int
    } else {
        0
    })) as u8
}

/// The modifier parameter of a set of modifiers.
fn modifier_param_value(mods: &Modifiers) -> (r: u8)
    ensures
        r == spec_modifier_param(*mods),
        1 <= r <= 8,
{
    let mut bits: u8 = 0;
    if mods.shift {
        bits = bits + 1;
    }
    if mods.alt {
        bits = bits + 2;
    }
    if mods.ctrl {
        bits = bits + 4;
    }
    bits + 1
}

/// ASCII bytes of ASCII characters.
pub open spec fn ascii_bytes(s: Seq<char>) -> Seq<u8> {
    s.map_values(|c: char| c as u8)
}

/// Appends the decimal digits of `n` as ASCII bytes.
pub fn push_decimal_bytes(v: &mut Vec<u8>, n: u64)
    ensures
        final(v)@ == old(v)@ + ascii_bytes(decimal(n as nat)),
    decreases n,
{
    let ghost v0 = v@;
    if n >= 10 {
        push_decimal_bytes(v, n / 10);
    }
    let d = (n % 10) as u8;
    v.push(48u8 + d);
    proof {
        let q = (n / 10) as nat;
        if n >= 10 {
            assert(decimal(n as nat) == decimal(q).push(digit_char((n % 10) as nat)));
            assert(ascii_bytes(decimal(q).push(digit_char((n % 10) as nat))) =~= ascii_bytes(
                decimal(q),
            ).push((48 + d) as u8));
        } else {
            assert(ascii_bytes(decimal(n as nat)) =~= seq![(48 + d) as u8]);
        }
        assert(v@ =~= v0 + ascii_bytes(decimal(n as nat)));
    }
}

/// Whether `k` is a single ASCII character (one byte in UTF-8).
pub open spec fn single_byte(k: Seq<char>) -> bool {
    k.len() == 1 && (k[0] as u32) < 0x80
}

/// ASCII upper-case letter.
pub open spec fn is_ascii_upper_byte(b: u8) -> bool {
    0x41 <= b <= 0x5A
}

/// A key sequence with a modifier parameter inserted: `ESC [ code ; m u`
/// for CSI-u keys, `ESC [ 1 ; m X` for SS3 and lettered CSI keys,
/// `ESC [ n ; m ~` for numbered CSI keys; other sequences are unchanged.
pub open spec fn spec_apply_modifier(seq: Seq<u8>, m: u8) -> Seq<u8> {
    let n = seq.len() as int;
    let md = ascii_bytes(decimal(m as nat));
    if seq.last() == 0x75u8 {
        seq![0x1bu8, 0x5bu8] + seq.subrange(2, n - 1) + seq![0x3bu8] + md + seq![0x75u8]
    } else if n == 3 && seq[1] == 0x4fu8 {
        seq![0x1bu8, 0x5bu8, 0x31u8, 0x3bu8] + md + seq![seq[2]]
    } else if is_ascii_upper_byte(seq.last()) && !seq.contains(0x7eu8) && !seq.contains(0x3bu8) {
        seq![0x1bu8, 0x5bu8, 0x31u8, 0x3bu8] + md + seq![seq.last()]
    } else if seq.last() == 0x7eu8 {
        seq![0x1bu8, 0x5bu8] + seq.subrange(2, n - 1) + seq![0x3bu8] + md + seq![0x7eu8]
    } else {
        seq
    }
}

fn contains_byte(v: &[u8], b: u8) -> (r: bool)
    ensures
        r == v@.contains(b),
{
    let mut i: usize = 0;
    while i < v.len()
        invariant
            i <= v.len(),
            forall|k: int| 0 <= k < i ==> v@[k] != b,
        decreases v.len() - i,
    {
        if v[i] == b {
            assert(v@[i as int] == b);
            return true;
        }
        i += 1;
    }
    false
}

fn push_range(out: &mut Vec<u8>, v: &[u8], from: usize, to: usize)
    requires
        from <= to <= v.len(),
    ensures
        final(out)@ == old(out)@ + v@.subrange(from as int, to as int),
{
    let ghost o0 = out@;
    let mut i = from;
    while i < to
        invariant
            from <= i <= to <= v.len(),
            out@ == o0 + v@.subrange(from as int, i as int),
        decreases to - i,
    {
        out.push(v[i]);
        assert(v@.subrange(from as int, i + 1) =~= v@.subrange(from as int, i as int).push(
            v@[i as int],
        ));
        i += 1;
    }
}

/// Inserts the modifier parameter into the escape sequence of a key.
fn apply_modifier_to_csi(seq: &[u8], modifier: u8) -> (r: Vec<u8>)
    requires
        seq.len() >= 3,
    ensures
        r@ == spec_apply_modifier(seq@, modifier),
{
    let n = seq.len();
    let last = seq[n - 1];
    let mut out: Vec<u8> = Vec::new();
    if last == 0x75 {
        out.push(0x1b);
        out.push(0x5b);
        push_range(&mut out, seq, 2, n - 1);
        out.push(0x3b);
        push_decimal_bytes(&mut out, modifier as u64);
        out.push(0x75);
    } else if n == 3 && seq[1] == 0x4f {
        out.push(0x1b);
        out.push(0x5b);
        out.push(0x31);
        out.push(0x3b);
        push_decimal_bytes(&mut out, modifier as u64);
        out.push(seq[2]);
    } else if 0x41 <= last && last <= 0x5A && !contains_byte(seq, 0x7e) && !contains_byte(
        seq,
        0x3b,
    ) {
        out.push(0x1b);
        out.push(0x5b);
        out.push(0x31);
        out.push(0x3b);
        push_decimal_bytes(&mut out, modifier as u64);
        out.push(last);
    } else if last == 0x7e {
        out.push(0x1b);
        out.push(0x5b);
        push_range(&mut out, seq, 2, n - 1);
        out.push(0x3b);
        push_decimal_bytes(&mut out, modifier as u64);
        out.push(0x7e);
    } else {
        push_range(&mut out, seq, 0, n);
        assert(seq@.subrange(0, n as int) =~= seq@);
    }
    proof {
        let md = ascii_bytes(decimal(modifier as nat));
        if last == 0x75 {
            assert(out@ =~= seq![0x1bu8, 0x5bu8] + seq@.subrange(2, n - 1) + seq![0x3bu8] + md
                + seq![0x75u8]);
        } else if n == 3 && seq@[1] == 0x4fu8 {
            assert(out@ =~= seq![0x1bu8, 0x5bu8, 0x31u8, 0x3bu8] + md + seq![seq@[2]]);
        } else if is_ascii_upper_byte(last) && !seq@.contains(0x7eu8) && !seq@.contains(0x3bu8) {
            assert(out@ =~= seq![0x1bu8, 0x5bu8, 0x31u8, 0x3bu8] + md + seq![last]);
        } else if last == 0x7e {
            assert(out@ =~= seq![0x1bu8, 0x5bu8] + seq@.subrange(2, n - 1) + seq![0x3bu8] + md
                + seq![0x7eu8]);
        }
    }
    out
}

/// The control byte of `ctrl-<c>`: letters map to 1..=26, and `[ \ ] ^ _`
/// to 0x1b..=0x1f.
pub open spec fn ctrl_byte(c: char) -> Option<u8> {
    if 'a' <= c && c <= 'z' {
        Some((c as int - 96) as u8)
    } else if c == '[' {
        Some(0x1bu8)
    } else if c == '\\' {
        Some(0x1cu8)
    } else if c == ']' {
        Some(0x1du8)
    } else if c == '^' {
        Some(0x1eu8)
    } else if c == '_' {
        Some(0x1fu8)
    } else {
        None
    }
}

/// ASCII letters.
pub open spec fn ascii_alpha(c: char) -> bool {
    ('a' <= c && c <= 'z') || ('A' <= c && c <= 'Z')
}

/// The ASCII upper-case byte of an ASCII letter.
pub open spec fn upper_byte(c: char) -> u8 {
    if 'a' <= c && c <= 'z' {
        (c as int - 32) as u8
    } else {
        c as u8
    }
}

/// `ESC [ code ; m u`.
pub open spec fn csi_u(code: nat, m: u8) -> Seq<u8> {
    seq![0x1bu8, 0x5bu8] + ascii_bytes(decimal(code)) + seq![0x3bu8] + ascii_bytes(
        decimal(m as nat),
    ) + seq![0x75u8]
}

/// The bytes of a modified key name (`ctrl-c`, `shift-up`, `alt-a`, ...):
/// a control byte for ctrl with a letter or `[ \ ] ^ _`, an upper-case
/// letter for shift with a letter, otherwise the key's escape sequence with
/// a modifier parameter, or `ESC [ code ; m u` for a single ASCII key.
/// `None` when the name is not a modified key (or ctrl goes with another
/// single character).
pub open spec fn spec_parse_modified_key(s: Seq<char>) -> Option<Seq<u8>> {
    match spec_parse_modifiers(s) {
        None => None,
        Some((m, key)) => {
            if m.ctrl && !m.shift && !m.alt && single_byte(key) {
                match ctrl_byte(key[0]) {
                    Some(b) => Some(seq![b]),
                    None => None,
                }
            } else if m.shift && !m.ctrl && !m.alt && single_byte(key) && ascii_alpha(key[0]) {
                Some(seq![upper_byte(key[0])])
            } else {
                let p = spec_modifier_param(m);
                match special_key_csi(key) {
                    Some(csi) => Some(spec_apply_modifier(csi, p)),
                    None => if single_byte(key) {
                        Some(csi_u((key[0] as u32) as nat, p))
                    } else {
                        None
                    },
                }
            }
        },
    }
}

fn ctrl_code(c: char) -> (r: Option<u8>)
    ensures
        r == ctrl_byte(c),
{
    if 'a' <= c && c <= 'z' {
        Some((c as u8) - 96)
    } else if c == '[' {
        Some(0x1b)
    } else if c == '\\' {
        Some(0x1c)
    } else if c == ']' {
        Some(0x1d)
    } else if c == '^' {
        Some(0x1e)
    } else if c == '_' {
        Some(0x1f)
    } else {
        None
    }
}

proof fn lemma_special_csi_len(k: Seq<char>)
    ensures
        special_key_csi(k) matches Some(v) ==> v.len() >= 3,
{
}

/// The bytes of a modified key name, or `None` (see `spec_parse_modified_key`).
fn parse_modified_key(s: &[char]) -> (r: Option<Vec<u8>>)
    ensures
        match spec_parse_modified_key(s@) {
            Some(b) => r matches Some(v) && v@ == b,
            None => r is None,
        },
{
    let (modifiers, key) = match parse_modifiers(s) {
        Some(p) => p,
        None => return None,
    };
    let single = key.len() == 1 && (key[0] as u32) < 0x80;
    if modifiers.ctrl && !modifiers.shift && !modifiers.alt && single {
        return match ctrl_code(key[0]) {
            Some(b) => Some(vec![b]),
            None => None,
        };
    }
    if modifiers.shift && !modifiers.ctrl && !modifiers.alt && single {
        let ch = key[0];
        if ('a' <= ch && ch <= 'z') || ('A' <= ch && ch <= 'Z') {
            let b: u8 = if 'a' <= ch && ch <= 'z' { (ch as u8) - 32 } else { ch as u8 };
            return Some(vec![b]);
        }
    }
    let modifier_param = modifier_param_value(&modifiers);
    proof {
        lemma_special_csi_len(key@);
    }
    if let Some(csi_seq) = special_csi(&key) {
        return Some(apply_modifier_to_csi(&csi_seq, modifier_param));
    }
    if single {
        let code = key[0] as u32;
        let mut out: Vec<u8> = Vec::new();
        out.push(0x1b);
        out.push(0x5b);
        push_decimal_bytes(&mut out, code as u64);
        out.push(0x3b);
        push_decimal_bytes(&mut out, modifier_param as u64);
        out.push(0x75);
        assert(out@ =~= csi_u(code as nat, modifier_param));
        return Some(out);
    }
    None
}


/// What `str::to_lowercase` makes of a string (Unicode lower-case mapping).
pub uninterp spec fn lowercase_of(s: Seq<char>) -> Seq<char>;

/// `str::to_lowercase`: the Unicode lower-case mapping of `s`; its result
/// is named `lowercase_of`, which the Unicode tables define.
#[verifier::external_body]
fn to_lowercase(s: &str) -> (r: String)
    ensures
        r@ == lowercase_of(s@),
{
    s.to_lowercase()
}

/// The bytes for a key name, given the name and its lower-case form: a
/// modified key (see `spec_parse_modified_key`), else a named key, else the
/// name's own UTF-8 bytes. The lower-case form is trimmed first.
pub open spec fn spec_translate_keycode_from(lower: Seq<char>, name: Seq<char>) -> Seq<u8> {
    let l = trim_seq(lower);
    match spec_parse_modified_key(l) {
        Some(b) => b,
        None => match named_key_bytes(l) {
            Some(b) => b,
            None => encode_utf8(name),
        },
    }
}

/// The bytes for the key name `name`, whose lower-case form is `lower`.
pub fn translate_lowercase_keycode(lower: &str, name: &str) -> (r: Vec<u8>)
    ensures
        r@ == spec_translate_keycode_from(lower@, name@),
{
    let l = trim_chars(&str_chars(lower));
    if let Some(bytes) = parse_modified_key(&l) {
        return bytes;
    }
    match named_key(&l) {
        Some(b) => b,
        None => vstd::slice::slice_to_vec(name.as_bytes()),
    }
}

/// The bytes a terminal sends for the key name `name` (case-insensitive,
/// surrounding whitespace ignored); a name that is no key is sent as it is.
pub fn translate_keycode(name: &str) -> (r: Vec<u8>)
    ensures
        r@ == spec_translate_keycode_from(lowercase_of(name@), name@),
{
    let lower = to_lowercase(name);
    translate_lowercase_keycode(lower.as_str(), name)
}


/// Whether a key name (case-insensitive, surrounding whitespace ignored)
/// names a key: a modified key or a named one, not text sent as it is.
pub open spec fn spec_is_named_key(name: Seq<char>) -> bool {
    let l = trim_seq(lowercase_of(name));
    spec_parse_modified_key(l) is Some || named_key_bytes(l) is Some
}

/// A translated key: the bytes to send, and whether the name named a key.
pub struct Key {
    pub bytes: Vec<u8>,
    pub is_named: bool,
}

/// Translates a key name, telling a named key from text sent as it is.
pub fn translate(name: &str) -> (k: Key)
    ensures
        k.bytes@ == spec_translate_keycode_from(lowercase_of(name@), name@),
        k.is_named == spec_is_named_key(name@),
{
    let lower = to_lowercase(name);
    let l = trim_chars(&str_chars(lower.as_str()));
    if let Some(bytes) = parse_modified_key(&l) {
        return Key { bytes, is_named: true };
    }
    match named_key(&l) {
        Some(b) => Key { bytes: b, is_named: true },
        None => Key { bytes: vstd::slice::slice_to_vec(name.as_bytes()), is_named: false },
    }
}

proof fn lemma_strip_one(p: Seq<char>, k: Seq<char>, idx: int)
    requires
        0 <= idx < 7,
        p == modifier_prefixes()[idx].0,
        first_prefix(p + k, 0) == Some(idx),
    ensures
        strip_modifiers(p + k, no_modifiers(), false) == strip_modifiers(
            k,
            with_modifier(no_modifiers(), modifier_prefixes()[idx].1),
            true,
        ),
{
    assert((p + k).skip(p.len() as int) =~= k);
}

/// `meta-` and `m-` are spellings of `alt-`: a key name read with any of
/// the three prefixes gives the same bytes.
pub proof fn law_meta_is_alt(k: Seq<char>)
    ensures
        spec_parse_modified_key(seq!['m', 'e', 't', 'a', '-'] + k) == spec_parse_modified_key(
            seq!['a', 'l', 't', '-'] + k,
        ),
        spec_parse_modified_key(seq!['m', '-'] + k) == spec_parse_modified_key(
            seq!['a', 'l', 't', '-'] + k,
        ),
{
    let meta = seq!['m', 'e', 't', 'a', '-'];
    let alt = seq!['a', 'l', 't', '-'];
    let m = seq!['m', '-'];
    reveal_with_fuel(first_prefix, 8);
    assert((meta + k).take(5) =~= meta);
    assert((alt + k).take(4) =~= alt);
    assert((m + k).take(2) =~= m);
    assert((meta + k)[0] == 'm' && (meta + k)[1] == 'e');
    assert((alt + k)[0] == 'a');
    assert((m + k)[0] == 'm' && (m + k)[1] == '-');
    assert(!starts_with(meta + k, seq!['c', 't', 'r', 'l', '-']) && !starts_with(
        meta + k,
        seq!['c', '-'],
    ));
    assert(!starts_with(meta + k, seq!['s', 'h', 'i', 'f', 't', '-']) && !starts_with(
        meta + k,
        seq!['s', '-'],
    ) && !starts_with(meta + k, alt));
    assert(!starts_with(alt + k, seq!['c', 't', 'r', 'l', '-']) && !starts_with(
        alt + k,
        seq!['c', '-'],
    ));
    assert(!starts_with(alt + k, seq!['s', 'h', 'i', 'f', 't', '-']) && !starts_with(
        alt + k,
        seq!['s', '-'],
    ));
    assert(!starts_with(m + k, seq!['c', 't', 'r', 'l', '-']) && !starts_with(
        m + k,
        seq!['c', '-'],
    ));
    assert(!starts_with(m + k, seq!['s', 'h', 'i', 'f', 't', '-']) && !starts_with(
        m + k,
        seq!['s', '-'],
    ) && !starts_with(m + k, alt) && !starts_with(m + k, meta));
    lemma_strip_one(meta, k, 5);
    lemma_strip_one(alt, k, 4);
    lemma_strip_one(m, k, 6);
}

/// `ctrl-<letter>` (or `c-<letter>`) sends the letter's control byte,
/// 1 for `a` through 26 for `z`.
pub proof fn law_ctrl_letter(c: char)
    requires
        'a' <= c <= 'z',
    ensures
        spec_parse_modified_key(seq!['c', 't', 'r', 'l', '-', c]) == Some(
            seq![(c as int - 96) as u8],
        ),
        spec_parse_modified_key(seq!['c', '-', c]) == Some(seq![(c as int - 96) as u8]),
{
    let ctrl = seq!['c', 't', 'r', 'l', '-'];
    let cc = seq!['c', '-'];
    let k = seq![c];
    reveal_with_fuel(first_prefix, 8);
    assert(ctrl + k =~= seq!['c', 't', 'r', 'l', '-', c]);
    assert(cc + k =~= seq!['c', '-', c]);
    assert((ctrl + k).take(5) =~= ctrl);
    assert((cc + k).take(2) =~= cc);
    assert(!starts_with(cc + k, ctrl));
    lemma_strip_one(ctrl, k, 0);
    lemma_strip_one(cc, k, 1);
    reveal_with_fuel(strip_modifiers, 2);
    assert(first_prefix(k, 0) is None) by {
        assert(!starts_with(k, ctrl) && !starts_with(k, cc));
        assert(!starts_with(k, seq!['s', 'h', 'i', 'f', 't', '-']) && !starts_with(
            k,
            seq!['s', '-'],
        ) && !starts_with(k, seq!['a', 'l', 't', '-']));
        assert(!starts_with(k, seq!['m', 'e', 't', 'a', '-']) && !starts_with(
            k,
            seq!['m', '-'],
        ));
    }
}

/// `shift-<letter>` sends the upper-case letter.
pub proof fn law_shift_letter(c: char)
    requires
        'a' <= c <= 'z' || 'A' <= c <= 'Z',
    ensures
        spec_parse_modified_key(seq!['s', 'h', 'i', 'f', 't', '-', c]) == Some(
            seq![upper_byte(c)],
        ),
{
    let shift = seq!['s', 'h', 'i', 'f', 't', '-'];
    let k = seq![c];
    reveal_with_fuel(first_prefix, 8);
    assert(shift + k =~= seq!['s', 'h', 'i', 'f', 't', '-', c]);
    assert((shift + k).take(6) =~= shift);
    assert(!starts_with(shift + k, seq!['c', 't', 'r', 'l', '-']) && !starts_with(
        shift + k,
        seq!['c', '-'],
    ));
    lemma_strip_one(shift, k, 2);
    reveal_with_fuel(strip_modifiers, 2);
    assert(first_prefix(k, 0) is None) by {
        assert(!starts_with(k, seq!['c', 't', 'r', 'l', '-']) && !starts_with(
            k,
            seq!['c', '-'],
        ));
        assert(!starts_with(k, shift) && !starts_with(k, seq!['s', '-']) && !starts_with(
            k,
            seq!['a', 'l', 't', '-'],
        ));
        assert(!starts_with(k, seq!['m', 'e', 't', 'a', '-']) && !starts_with(
            k,
            seq!['m', '-'],
        ));
    }
}

/// A name that is no key is sent as its own UTF-8 bytes.
pub proof fn law_unknown_key_is_raw(name: Seq<char>)
    requires
        !spec_is_named_key(name),
    ensures
        spec_translate_keycode_from(lowercase_of(name), name) == encode_utf8(name),
{
}

proof fn lemma_modifier_shape(csi: Seq<u8>, m: u8)
    requires
        csi.len() >= 3,
        csi[0] == 0x1bu8,
        (csi[1] == 0x5bu8 && (csi.last() == 0x75u8 || csi.last() == 0x7eu8)) || (csi.len() == 3
            && csi[1] == 0x4fu8) || (csi.len() == 3 && csi[1] == 0x5bu8 && is_ascii_upper_byte(
            csi[2],
        )),
    ensures
        ({
            let r = spec_apply_modifier(csi, m);
            let md = ascii_bytes(decimal(m as nat));
            &&& r.len() >= 3 + md.len()
            &&& r.take(2) == seq![0x1bu8, 0x5bu8]
            &&& r.last() == csi.last()
            &&& r.subrange(r.len() - 2 - md.len(), r.len() - 1) == seq![0x3bu8] + md
        }),
{
    let n = csi.len() as int;
    let md = ascii_bytes(decimal(m as nat));
    let r = spec_apply_modifier(csi, m);
    if csi.last() == 0x75u8 {
        let body = csi.subrange(2, n - 1);
        assert(r == seq![0x1bu8, 0x5bu8] + body + seq![0x3bu8] + md + seq![0x75u8]);
        assert(r.take(2) =~= seq![0x1bu8, 0x5bu8]);
        assert(r.subrange(r.len() - 2 - md.len(), r.len() - 1) =~= seq![0x3bu8] + md);
    } else if n == 3 && csi[1] == 0x4fu8 {
        assert(r == seq![0x1bu8, 0x5bu8, 0x31u8, 0x3bu8] + md + seq![csi[2]]);
        assert(r.take(2) =~= seq![0x1bu8, 0x5bu8]);
        assert(r.subrange(r.len() - 2 - md.len(), r.len() - 1) =~= seq![0x3bu8] + md);
    } else if csi.last() == 0x7eu8 {
        assert(!is_ascii_upper_byte(csi.last()));
        let body = csi.subrange(2, n - 1);
        assert(r == seq![0x1bu8, 0x5bu8] + body + seq![0x3bu8] + md + seq![0x7eu8]);
        assert(r.take(2) =~= seq![0x1bu8, 0x5bu8]);
        assert(r.subrange(r.len() - 2 - md.len(), r.len() - 1) =~= seq![0x3bu8] + md);
    } else {
        assert(n == 3 && csi[1] == 0x5bu8 && is_ascii_upper_byte(csi[2]));
        assert(!csi.contains(0x7eu8)) by {
            assert forall|i: int| 0 <= i < 3 implies csi[i] != 0x7eu8 by {
                if i == 0 {
                } else if i == 1 {
                } else {
                }
            }
        }
        assert(!csi.contains(0x3bu8)) by {
            assert forall|i: int| 0 <= i < 3 implies csi[i] != 0x3bu8 by {
                if i == 0 {
                } else if i == 1 {
                } else {
                }
            }
        }
        assert(r == seq![0x1bu8, 0x5bu8, 0x31u8, 0x3bu8] + md + seq![csi.last()]);
        assert(r.take(2) =~= seq![0x1bu8, 0x5bu8]);
        assert(r.subrange(r.len() - 2 - md.len(), r.len() - 1) =~= seq![0x3bu8] + md);
    }
}

/// A modifier is never lost on a key of the table (arrows, navigation and
/// function keys, Enter, Tab, Escape, Backspace, Space): the modified
/// sequence is a CSI sequence that keeps the key's final byte and carries
/// `;` and the modifier parameter (1 + shift 1 + alt 2 + ctrl 4) in
/// decimal right before it.
pub proof fn law_modifier_is_sent(k: Seq<char>, m: u8)
    requires
        special_key_csi(k) is Some,
    ensures
        ({
            let csi = special_key_csi(k)->0;
            let r = spec_apply_modifier(csi, m);
            let md = ascii_bytes(decimal(m as nat));
            &&& r.len() >= 3 + md.len()
            &&& r.take(2) == seq![0x1bu8, 0x5bu8]
            &&& r.last() == csi.last()
            &&& r.subrange(r.len() - 2 - md.len(), r.len() - 1) == seq![0x3bu8] + md
        }),
{
    lemma_modifier_shape(special_key_csi(k)->0, m);
}

/// A key whose plain form is the CSI-u sequence `ESC [ code u` gets the
/// modifier parameter as the sequence's second parameter:
/// `ESC [ code ; param u`, for every code and every modifier.
pub proof fn law_csi_u_takes_modifier(code: Seq<u8>, m: u8)
    ensures
        spec_apply_modifier(seq![0x1bu8, 0x5bu8] + code + seq![0x75u8], m) == seq![0x1bu8, 0x5bu8]
            + code + seq![0x3bu8] + ascii_bytes(decimal(m as nat)) + seq![0x75u8],
{
    let csi = seq![0x1bu8, 0x5bu8] + code + seq![0x75u8];
    assert(csi.last() == 0x75u8);
    assert(csi.subrange(2, csi.len() - 1) =~= code);
}

/// A modified key name whose key is a CSI-u key (Enter, Tab, Escape,
/// Backspace, Space) and that is not a bare control or shifted letter is
/// sent as `ESC [ code ; param u`, the parameter counting the modifiers.
pub proof fn law_modified_csi_u_key(s: Seq<char>, code: Seq<u8>)
    requires
        spec_parse_modifiers(s) is Some,
        special_key_csi((spec_parse_modifiers(s)->0).1) == Some(
            seq![0x1bu8, 0x5bu8] + code + seq![0x75u8],
        ),
        !single_byte((spec_parse_modifiers(s)->0).1),
    ensures
        spec_parse_modified_key(s) == Some(
            seq![0x1bu8, 0x5bu8] + code + seq![0x3bu8] + ascii_bytes(
                decimal(spec_modifier_param((spec_parse_modifiers(s)->0).0) as nat),
            ) + seq![0x75u8],
        ),
{
    law_csi_u_takes_modifier(code, spec_modifier_param((spec_parse_modifiers(s)->0).0));
}

} // verus!
