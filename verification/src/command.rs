//! Text of the chat commands: trimming, the command word and its
//! arguments, and decimal arguments.

use vstd::prelude::*;
use crate::entry::{all_digits, chars_value};
use crate::text::{is_unicode_ws, trim_end_seq, trim_seq, trim_start_seq};

verus! {

pub fn is_ws(c: char) -> (r: bool)
    ensures
        r == is_unicode_ws(c),
{
    let u = c as u32;
    (0x09 <= u && u <= 0x0D) || u == 0x20 || u == 0x85 || u == 0xA0 || u == 0x1680 || (0x2000 <= u
        && u <= 0x200A) || u == 0x2028 || u == 0x2029 || u == 0x202F || u == 0x205F || u == 0x3000
}

proof fn lemma_trim_start_skip(s: Seq<char>, k: int)
    requires
        0 <= k <= s.len(),
        forall|i: int| 0 <= i < k ==> is_unicode_ws(#[trigger] s[i]),
    ensures
        trim_start_seq(s) == trim_start_seq(s.skip(k)),
    decreases k,
{
    if k > 0 {
        assert(s.drop_first().skip(k - 1) =~= s.skip(k));
        lemma_trim_start_skip(s.drop_first(), k - 1);
    } else {
        assert(s.skip(0) =~= s);
    }
}

proof fn lemma_trim_end_take(s: Seq<char>, k: int)
    requires
        0 <= k <= s.len(),
        forall|i: int| k <= i < s.len() ==> is_unicode_ws(#[trigger] s[i]),
    ensures
        trim_end_seq(s) == trim_end_seq(s.take(k)),
    decreases s.len() - k,
{
    if k < s.len() {
        assert(s.drop_last().take(k) =~= s.take(k));
        lemma_trim_end_take(s.drop_last(), k);
    } else {
        assert(s.take(k) =~= s);
    }
}

proof fn lemma_trim_start_first(s: Seq<char>)
    ensures
        trim_start_seq(s).len() > 0 ==> !is_unicode_ws(trim_start_seq(s)[0]),
    decreases s.len(),
{
    if s.len() > 0 && is_unicode_ws(s[0]) {
        lemma_trim_start_first(s.drop_first());
    }
}

proof fn lemma_trim_end_prefix(s: Seq<char>)
    ensures
        trim_end_seq(s).len() <= s.len(),
        trim_end_seq(s) == s.take(trim_end_seq(s).len() as int),
        s.len() > 0 && !is_unicode_ws(s[0]) ==> trim_end_seq(s).len() > 0,
    decreases s.len(),
{
    if s.len() > 0 && is_unicode_ws(s.last()) {
        lemma_trim_end_prefix(s.drop_last());
        let t = trim_end_seq(s.drop_last());
        assert(s.drop_last().take(t.len() as int) =~= s.take(t.len() as int));
    } else {
        assert(s.take(s.len() as int) =~= s);
    }
}

/// Trimming the start of trimmed text changes nothing.
pub proof fn lemma_trim_start_idempotent(s: Seq<char>)
    ensures
        trim_start_seq(trim_seq(s)) == trim_seq(s),
{
    let a = trim_start_seq(s);
    lemma_trim_start_first(s);
    lemma_trim_end_prefix(a);
    let t = trim_end_seq(a);
    if t.len() > 0 {
        assert(t[0] == a[0]);
    }
}

/// Leading whitespace removed.
pub fn trim_start_chars(s: &[char]) -> (r: Vec<char>)
    ensures
        r@ == trim_start_seq(s@),
{
    let mut i: usize = 0;
    while i < s.len() && is_ws(s[i])
        invariant
            i <= s@.len(),
            forall|k: int| 0 <= k < i ==> is_unicode_ws(#[trigger] s@[k]),
        decreases s@.len() - i,
    {
        i = i + 1;
    }
    proof {
        lemma_trim_start_skip(s@, i as int);
    }
    let r = vstd::slice::slice_to_vec(vstd::slice::slice_subrange(s, i, s.len()));
    assert(r@ =~= s@.skip(i as int));
    r
}

/// Trailing whitespace removed.
pub fn trim_end_chars(s: &[char]) -> (r: Vec<char>)
    ensures
        r@ == trim_end_seq(s@),
{
    let mut j: usize = s.len();
    while j > 0 && is_ws(s[j - 1])
        invariant
            j <= s@.len(),
            forall|k: int| j <= k < s@.len() ==> is_unicode_ws(#[trigger] s@[k]),
        decreases j,
    {
        j = j - 1;
    }
    proof {
        lemma_trim_end_take(s@, j as int);
    }
    let r = vstd::slice::slice_to_vec(vstd::slice::slice_subrange(s, 0, j));
    assert(r@ =~= s@.take(j as int));
    r
}

/// Leading and trailing whitespace removed.
pub fn trim_chars(s: &[char]) -> (r: Vec<char>)
    ensures
        r@ == trim_seq(s@),
{
    let a = trim_start_chars(s);
    trim_end_chars(a.as_slice())
}

/// The index of the first space or tab.
pub open spec fn first_blank(s: Seq<char>) -> Option<int> {
    if exists|i: int| 0 <= i < s.len() && (s[i] == ' ' || s[i] == '\t') {
        Some(choose|i: int| 0 <= i < s.len() && (s[i] == ' ' || s[i] == '\t') && forall|k: int| 0 <= k < i ==> !(#[trigger] s[k] == ' ' || s[k] == '\t'))
    } else {
        None
    }
}

/// The command word and its trimmed arguments: the text after leading
/// whitespace, split at its first space or tab.
pub open spec fn split_command_spec(cmd: Seq<char>) -> (Seq<char>, Seq<char>) {
    let t = trim_start_seq(cmd);
    match first_blank(t) {
        Some(i) => (t.take(i), trim_seq(t.skip(i + 1))),
        None => (t, Seq::empty()),
    }
}

fn find_blank(s: &[char]) -> (r: Option<usize>)
    ensures
        r matches Some(i) ==> i < s@.len() && first_blank(s@) == Some(i as int),
        r is None ==> first_blank(s@) is None,
{
    let mut i: usize = 0;
    while i < s.len()
        invariant
            i <= s@.len(),
            forall|k: int| 0 <= k < i ==> !(#[trigger] s@[k] == ' ' || s@[k] == '\t'),
        decreases s@.len() - i,
    {
        if s[i] == ' ' || s[i] == '\t' {
            proof {
                let w = choose|w: int| 0 <= w < s@.len() && (s@[w] == ' ' || s@[w] == '\t') && forall|k: int| 0 <= k < w ==> !(#[trigger] s@[k] == ' ' || s@[k] == '\t');
                if w < i {
                    assert(!(s@[w] == ' ' || s@[w] == '\t'));
                }
                if i < w {
                    assert(!(s@[i as int] == ' ' || s@[i as int] == '\t'));
                }
            }
            return Some(i);
        }
        i = i + 1;
    }
    None
}

pub fn split_command(cmd: &[char]) -> (r: (Vec<char>, Vec<char>))
    ensures
        r.0@ == split_command_spec(cmd@).0,
        r.1@ == split_command_spec(cmd@).1,
{
    let t = trim_start_chars(cmd);
    match find_blank(t.as_slice()) {
        Some(i) => {
            let name = vstd::slice::slice_to_vec(vstd::slice::slice_subrange(t.as_slice(), 0, i));
            let rest = vstd::slice::slice_subrange(t.as_slice(), i + 1, t.len());
            assert(name@ =~= t@.take(i as int));
            assert(rest@ =~= t@.skip(i + 1));
            (name, trim_chars(rest))
        },
        None => (t, Vec::new()),
    }
}

/// `str::parse::<u32>`: an optional `+`, at least one digit, a value that
/// fits in 32 bits.
pub open spec fn parse_u32_spec(s: Seq<char>) -> Option<u32> {
    let d = if s.len() > 0 && s[0] == '+' { s.drop_first() } else { s };
    if d.len() > 0 && all_digits(d) && chars_value(d) <= u32::MAX {
        Some(chars_value(d) as u32)
    } else {
        None
    }
}

proof fn lemma_value_grows(d: Seq<char>, k: int)
    requires
        0 <= k <= d.len(),
        all_digits(d),
    ensures
        chars_value(d.take(k)) <= chars_value(d),
    decreases d.len() - k,
{
    if k < d.len() {
        lemma_value_grows(d, k + 1);
        assert(d.take(k + 1).drop_last() =~= d.take(k));
    } else {
        assert(d.take(k) =~= d);
    }
}

pub fn parse_u32(s: &[char]) -> (r: Option<u32>)
    ensures
        r == parse_u32_spec(s@),
{
    let mut start: usize = 0;
    if s.len() > 0 && s[0] == '+' {
        start = 1;
    }
    let ghost d = if s@.len() > 0 && s@[0] == '+' { s@.drop_first() } else { s@ };
    assert(d =~= s@.skip(start as int));
    if start == s.len() {
        return None;
    }
    let mut v: u64 = 0;
    let mut i: usize = start;
    while i < s.len()
        invariant
            start <= i <= s@.len(),
            d == s@.skip(start as int),
            d == (if s@.len() > 0 && s@[0] == '+' { s@.drop_first() } else { s@ }),
            d.len() > 0,
            v as nat == chars_value(d.take(i - start)),
            v <= u32::MAX,
            all_digits(d.take(i - start)),
        decreases s@.len() - i,
    {
        let c = s[i];
        assert(d.take(i - start + 1).drop_last() =~= d.take(i - start));
        assert(d[i - start] == c);
        if !('0' <= c && c <= '9') {
            assert(!('0' <= d[i - start] <= '9'));
            assert(!all_digits(d));
            return None;
        }
        let digit = (c as u64) - 48;
        let nv = v * 10 + digit;
        assert(d.take(i - start + 1).last() == c);
        assert(chars_value(d.take(i - start + 1)) == nv);
        if nv > 0xFFFF_FFFF {
            proof {
                assert(all_digits(d.take(i - start + 1)));
                if all_digits(d) {
                    lemma_value_grows(d, i - start + 1);
                }
            }
            return None;
        }
        v = nv;
        i = i + 1;
        assert(all_digits(d.take(i - start)));
    }
    assert(d.take(i - start) =~= d);
    Some(v as u32)
}

} // verus!
