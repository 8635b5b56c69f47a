//! Byte and character helpers shared by the wire encoders and the login
//! rules: C-string prefixes, ASCII classification, decimal rendering, and
//! the few std string operations the library relies on.

use vstd::prelude::*;
use vstd::utf8::*;

verus! {

/// The character that an ASCII byte stands for.
pub open spec fn ascii_chars(bs: Seq<u8>) -> Seq<char> {
    bs.map_values(|b: u8| b as char)
}

/// The byte of each character (meaningful for ASCII text).
pub open spec fn ascii_bytes(c: Seq<char>) -> Seq<u8> {
    c.map_values(|ch: char| ch as u8)
}

/// ASCII bytes read as characters and back are the same bytes.
pub proof fn lemma_ascii_bytes(b: Seq<u8>)
    requires
        forall|i: int| 0 <= i < b.len() ==> b[i] < 128,
    ensures
        ascii_bytes(ascii_chars(b)) == b,
{
    assert forall|i: int| 0 <= i < b.len() implies ascii_bytes(ascii_chars(b))[i] == b[i] by {
        let x: u8 = b[i];
        assert((x as char) as u8 == x);
    }
    assert(ascii_bytes(ascii_chars(b)) =~= b);
}

/// ASCII lowercase of one character (non-ASCII-uppercase characters are kept).
pub open spec fn ascii_lower(c: char) -> char {
    if 'A' <= c && c <= 'Z' {
        ((c as u32) + 32) as char
    } else {
        c
    }
}

/// ASCII lowercase of one byte.
pub open spec fn ascii_lower_byte(b: u8) -> u8 {
    if 65 <= b && b <= 90 {
        (b + 32) as u8
    } else {
        b
    }
}

pub open spec fn is_ascii_digit_byte(b: u8) -> bool {
    48 <= b && b <= 57
}

pub open spec fn is_ascii_alpha_byte(b: u8) -> bool {
    (65 <= b && b <= 90) || (97 <= b && b <= 122)
}

pub open spec fn is_ascii_alnum_byte(b: u8) -> bool {
    is_ascii_alpha_byte(b) || is_ascii_digit_byte(b)
}

/// The characters with the Unicode `White_Space` property (what
/// `char::is_whitespace` recognises).
pub open spec fn is_unicode_ws(c: char) -> bool {
    let u = c as u32;
    ||| (0x09 <= u && u <= 0x0D)
    ||| u == 0x20
    ||| u == 0x85
    ||| u == 0xA0
    ||| u == 0x1680
    ||| (0x2000 <= u && u <= 0x200A)
    ||| u == 0x2028
    ||| u == 0x2029
    ||| u == 0x202F
    ||| u == 0x205F
    ||| u == 0x3000
}

/// Leading whitespace removed.
pub open spec fn trim_start_seq(s: Seq<char>) -> Seq<char>
    decreases s.len(),
{
    if s.len() > 0 && is_unicode_ws(s[0]) {
        trim_start_seq(s.drop_first())
    } else {
        s
    }
}

/// Trailing whitespace removed.
pub open spec fn trim_end_seq(s: Seq<char>) -> Seq<char>
    decreases s.len(),
{
    if s.len() > 0 && is_unicode_ws(s.last()) {
        trim_end_seq(s.drop_last())
    } else {
        s
    }
}

/// Leading and trailing whitespace removed (what `str::trim` returns).
pub open spec fn trim_seq(s: Seq<char>) -> Seq<char> {
    trim_end_seq(trim_start_seq(s))
}

/// Length of the C-string held in `b`: the index of the first NUL, or the
/// whole length when there is none.
pub open spec fn cstr_len(b: Seq<u8>) -> nat
    decreases b.len(),
{
    if b.len() == 0 {
        0
    } else if b[0] == 0 {
        0
    } else {
        1 + cstr_len(b.drop_first())
    }
}

/// The C-string prefix of `b` (the bytes before the first NUL).
pub open spec fn cstr_bytes(b: Seq<u8>) -> Seq<u8> {
    b.take(cstr_len(b) as int)
}

/// The index characterisation of `cstr_len`.
pub proof fn lemma_cstr_len_char(b: Seq<u8>, e: int)
    requires
        0 <= e <= b.len(),
        forall|k: int| 0 <= k < e ==> b[k] != 0,
        e < b.len() ==> b[e] == 0,
    ensures
        cstr_len(b) == e,
    decreases b.len(),
{
    if b.len() == 0 {
    } else if b[0] == 0 {
    } else {
        assert forall|k: int| 0 <= k < e - 1 implies b.drop_first()[k] != 0 by {
            assert(b.drop_first()[k] == b[k + 1]);
        }
        if e < b.len() {
            assert(b.drop_first()[e - 1] == b[e]);
        }
        lemma_cstr_len_char(b.drop_first(), e - 1);
    }
}

/// Index of the first NUL byte of `b` (or `b.len()` when there is none).
pub fn first_nul(b: &[u8]) -> (e: usize)
    ensures
        e == cstr_len(b@),
        e <= b@.len(),
{
    let mut i: usize = 0;
    while i < b.len()
        invariant
            i <= b@.len(),
            forall|k: int| 0 <= k < i ==> b@[k] != 0,
        decreases b@.len() - i,
    {
        if b[i] == 0 {
            proof {
                lemma_cstr_len_char(b@, i as int);
            }
            return i;
        }
        i = i + 1;
    }
    proof {
        lemma_cstr_len_char(b@, i as int);
    }
    i
}

/// Builds a `String` whose characters are the given bytes read as
/// characters (the ASCII text of a wire field).
pub(crate) fn string_from_ascii(bytes: Vec<u8>) -> (s: String)
    ensures
        s@ == ascii_chars(bytes@),
{
    let mut c: Vec<char> = Vec::new();
    let mut i: usize = 0;
    while i < bytes.len()
        invariant
            i <= bytes@.len(),
            c@ == ascii_chars(bytes@.take(i as int)),
        decreases bytes@.len() - i,
    {
        c.push(bytes[i] as char);
        i = i + 1;
        assert(c@ =~= ascii_chars(bytes@.take(i as int)));
    }
    assert(bytes@.take(i as int) =~= bytes@);
    string_from_chars(c.as_slice())
}

/// `std::str::from_utf8`: `Some` exactly when the bytes are valid UTF-8, and
/// then the string holds exactly those bytes.
#[verifier::external_body]
pub(crate) fn str_from_utf8(bytes: &[u8]) -> (r: Option<&str>)
    ensures
        r is Some <==> valid_utf8(bytes@),
        r matches Some(s) ==> s@ == decode_utf8(bytes@),
{
    std::str::from_utf8(bytes).ok()
}

/// The text that `String::from_utf8_lossy` makes of `b`.
pub uninterp spec fn utf8_lossy(b: Seq<u8>) -> Seq<char>;

/// `String::from_utf8_lossy`: the text of the bytes with every invalid
/// sequence replaced by U+FFFD; valid UTF-8 decodes unchanged.
#[verifier::external_body]
pub(crate) fn string_from_utf8_lossy(b: &[u8]) -> (s: String)
    ensures
        s@ == utf8_lossy(b@),
        valid_utf8(b@) ==> s@ == decode_utf8(b@),
{
    String::from_utf8_lossy(b).into_owned()
}

/// `str::chars` collected: the characters of the string.
#[verifier::external_body]
pub(crate) fn str_chars_vec(s: &str) -> (v: Vec<char>)
    ensures
        v@ == s@,
{
    s.chars().collect()
}

/// A `String` made of the given characters (`FromIterator<char>`).
#[verifier::external_body]
pub(crate) fn string_from_chars(c: &[char]) -> (s: String)
    ensures
        s@ == c@,
{
    c.iter().collect()
}

/// The string without its leading and trailing `White_Space` characters.
pub(crate) fn trim_string(s: &str) -> (r: String)
    ensures
        r@ == trim_seq(s@),
{
    let c = str_chars_vec(s);
    let t = crate::command::trim_chars(c.as_slice());
    string_from_chars(t.as_slice())
}

/// The characters with ASCII uppercase letters mapped to lowercase, every
/// other character kept.
pub(crate) fn chars_to_ascii_lowercase(c: &[char]) -> (r: Vec<char>)
    ensures
        r@ == c@.map_values(|x: char| ascii_lower(x)),
{
    let mut r: Vec<char> = Vec::new();
    let mut i: usize = 0;
    while i < c.len()
        invariant
            i <= c@.len(),
            r@ == c@.take(i as int).map_values(|x: char| ascii_lower(x)),
        decreases c@.len() - i,
    {
        let ch = c[i];
        let lo = if 'A' <= ch && ch <= 'Z' {
            let b: u8 = ch as u8;
            (b + 32) as char
        } else {
            ch
        };
        assert(lo == ascii_lower(ch));
        r.push(lo);
        i = i + 1;
        assert(r@ =~= c@.take(i as int).map_values(|x: char| ascii_lower(x)));
    }
    assert(c@.take(i as int) =~= c@);
    r
}

/// The string with ASCII uppercase letters mapped to lowercase, every other
/// character kept.
pub(crate) fn str_to_ascii_lowercase(s: &str) -> (r: String)
    ensures
        r@ == s@.map_values(|c: char| ascii_lower(c)),
{
    let c = str_chars_vec(s);
    let l = chars_to_ascii_lowercase(c.as_slice());
    string_from_chars(l.as_slice())
}

/// ASCII case-insensitive equality of two byte strings.
pub open spec fn eq_ignore_ascii_case_bytes(a: Seq<u8>, b: Seq<u8>) -> bool {
    &&& a.len() == b.len()
    &&& forall|i: int| 0 <= i < a.len() ==> ascii_lower_byte(a[i]) == ascii_lower_byte(b[i])
}

/// `eq_ignore_ascii_case` over the bytes of two strings.
pub fn bytes_eq_ignore_ascii_case(a: &[u8], b: &[u8]) -> (r: bool)
    ensures
        r == eq_ignore_ascii_case_bytes(a@, b@),
{
    if a.len() != b.len() {
        return false;
    }
    let mut i: usize = 0;
    while i < a.len()
        invariant
            a@.len() == b@.len(),
            i <= a@.len(),
            forall|k: int| 0 <= k < i ==> ascii_lower_byte(a@[k]) == ascii_lower_byte(b@[k]),
        decreases a@.len() - i,
    {
        let x = if a[i] >= 65 && a[i] <= 90 { a[i] + 32 } else { a[i] };
        let y = if b[i] >= 65 && b[i] <= 90 { b[i] + 32 } else { b[i] };
        if x != y {
            return false;
        }
        i = i + 1;
    }
    true
}

/// Byte-wise equality of two slices.
pub fn bytes_eq(a: &[u8], b: &[u8]) -> (r: bool)
    ensures
        r == (a@ == b@),
{
    if a.len() != b.len() {
        return false;
    }
    let mut i: usize = 0;
    while i < a.len()
        invariant
            a@.len() == b@.len(),
            i <= a@.len(),
            forall|k: int| 0 <= k < i ==> a@[k] == b@[k],
        decreases a@.len() - i,
    {
        if a[i] != b[i] {
            return false;
        }
        i = i + 1;
    }
    assert(a@ =~= b@);
    true
}

/// The string held by a C-string field: the bytes before the first NUL when
/// they are valid UTF-8, the empty string otherwise.
pub open spec fn cstr_chars(b: Seq<u8>) -> Seq<char> {
    if valid_utf8(cstr_bytes(b)) {
        decode_utf8(cstr_bytes(b))
    } else {
        Seq::empty()
    }
}

/// C-string to `&str`: up to the first NUL; bytes that are not UTF-8 give
/// the empty string.
pub fn cstr(bytes: &[u8]) -> (s: &str)
    ensures
        s@ == cstr_chars(bytes@),
{
    let end = first_nul(bytes);
    let prefix = vstd::slice::slice_subrange(bytes, 0, end);
    assert(prefix@ == cstr_bytes(bytes@));
    match str_from_utf8(prefix) {
        Some(st) => st,
        None => {
            let e = "";
            proof {
                reveal_strlit("");
            }
            assert(e@ =~= Seq::<char>::empty());
            e
        },
    }
}

} // verus!
